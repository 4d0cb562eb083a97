use simple_weather::compass::deg_to_cardinal;
use simple_weather::decimal::{parse_number, scale_number, tenth_of, NumberError, Scientific};
use simple_weather::json::{parse_document, JsonValue};
use simple_weather::weather::{
    parse_weather, weather_from_response, ParseError, RequiredField, WeatherError,
};

const PHILADELPHIA: &str = r#"{"name":"Philadelphia","sys":{"country":"US"},"weather":[{"description":"clear sky"}],"main":{"temp":21.3,"humidity":55,"pressure":1013},"wind":{"deg":200,"speed":5.0}}"#;

fn chars(s: &str) -> Vec<char> {
    s.chars().collect()
}

#[test]
fn philadelphia_end_to_end() {
    let w = parse_weather(PHILADELPHIA).ok().unwrap();
    assert_eq!(w.location, "Philadelphia");
    assert_eq!(w.country, "US");
    assert_eq!(w.weather_description, "Clear Sky");
    assert!(!w.description_missing);
    assert_eq!(w.temperature_tenths, 213);
    assert_eq!(w.humidity, 55);
    assert!(!w.pressure.negative);
    assert_eq!(w.pressure.mantissa, 1013);
    assert_eq!(w.pressure.scale, 1);
    // 200 degrees lies in the sector from 157.5 to 202.5 degrees.
    assert_eq!(w.wind_cardinal_direction, "S");
    assert_eq!(w.wind_speed_tenths, 180);
}

#[test]
fn eight_compass_points() {
    let expected = ["N", "NE", "E", "SE", "S", "SW", "W", "NW"];
    for (k, name) in expected.iter().enumerate() {
        assert_eq!(deg_to_cardinal(450 * k as i64), *name);
    }
    assert_eq!(deg_to_cardinal(3590), "N");
    assert_eq!(deg_to_cardinal(3600), "N");
}

#[test]
fn compass_sector_edges() {
    assert_eq!(deg_to_cardinal(224), "N");
    assert_eq!(deg_to_cardinal(225), "NE");
    assert_eq!(deg_to_cardinal(-225), "N");
    assert_eq!(deg_to_cardinal(-226), "NW");
}

#[test]
fn compass_is_periodic() {
    for t in [-7200i64, -1234, 0, 17, 450, 2025, 3599] {
        assert_eq!(deg_to_cardinal(t), deg_to_cardinal(t + 3600));
        assert_eq!(deg_to_cardinal(t), deg_to_cardinal(t - 7200));
    }
    assert_eq!(deg_to_cardinal(i64::MIN), deg_to_cardinal(i64::MIN + 3600));
    assert_eq!(deg_to_cardinal(i64::MAX), deg_to_cardinal(i64::MAX - 3600));
}

#[test]
fn missing_description_is_not_an_error() {
    let body = r#"{"name":"Oslo","sys":{"country":"NO"},"main":{"temp":-3.46,"humidity":80,"pressure":998.5},"wind":{"deg":10,"speed":2.5}}"#;
    let w = parse_weather(body).ok().unwrap();
    assert_eq!(w.weather_description, "");
    assert!(w.description_missing);
    assert_eq!(w.temperature_tenths, -35);
    assert_eq!(w.pressure.mantissa, 9985);
    assert_eq!(w.pressure.scale, 2);
    assert_eq!(w.wind_cardinal_direction, "N");
    assert_eq!(w.wind_speed_tenths, 90);
}

#[test]
fn empty_weather_list_means_no_description() {
    let body = r#"{"name":"A","sys":{"country":"B"},"weather":[],"main":{"temp":1,"humidity":2,"pressure":3},"wind":{"deg":90,"speed":0}}"#;
    let w = parse_weather(body).ok().unwrap();
    assert!(w.description_missing);
    assert_eq!(w.wind_cardinal_direction, "E");
    assert_eq!(w.temperature_tenths, 10);
}

#[test]
fn missing_temperature_is_a_typed_error() {
    let body = r#"{"name":"Philadelphia","sys":{"country":"US"},"main":{"humidity":55,"pressure":1013},"wind":{"deg":200,"speed":5.0}}"#;
    assert_eq!(
        parse_weather(body).err(),
        Some(ParseError::MissingField(RequiredField::Temperature))
    );
}

#[test]
fn each_required_field_is_reported() {
    let cases = [
        (r#"{"sys":{"country":"US"}}"#, RequiredField::Location),
        (r#"{"name":"X","sys":{"country":7}}"#, RequiredField::Country),
        (r#"{"name":"X","sys":{"country":"US"},"main":{"temp":"hot"}}"#, RequiredField::Temperature),
        (r#"{"name":"X","sys":{"country":"US"},"main":{"temp":1,"humidity":55.5}}"#, RequiredField::Humidity),
        (r#"{"name":"X","sys":{"country":"US"},"main":{"temp":1,"humidity":-5}}"#, RequiredField::Humidity),
        (r#"{"name":"X","sys":{"country":"US"},"main":{"temp":1,"humidity":5}}"#, RequiredField::Pressure),
        (r#"{"name":"X","sys":{"country":"US"},"main":{"temp":1,"humidity":5,"pressure":1}}"#, RequiredField::WindDirection),
        (r#"{"name":"X","sys":{"country":"US"},"main":{"temp":1,"humidity":5,"pressure":1},"wind":{"deg":1}}"#, RequiredField::WindSpeed),
    ];
    for (body, field) in cases {
        assert_eq!(parse_weather(body).err(), Some(ParseError::MissingField(field)));
    }
}

#[test]
fn malformed_body_is_a_parse_error() {
    assert_eq!(parse_weather("{\"name\": ").err(), Some(ParseError::MalformedJson));
    assert_eq!(
        weather_from_response(Some("not json")).err(),
        Some(WeatherError::Parse(ParseError::MalformedJson))
    );
}

#[test]
fn failed_request_is_a_transport_error() {
    assert_eq!(weather_from_response(None).err(), Some(WeatherError::Transport));
    assert!(weather_from_response(Some(PHILADELPHIA)).is_ok());
}

fn sci(negative: bool, mantissa: u64, exponent: i128) -> Scientific {
    Scientific { negative, mantissa, exponent, integral: false }
}

#[test]
fn rounding_goes_half_away_from_zero() {
    assert_eq!(scale_number(&sci(false, 2125, -2), 10, false), Some(213));
    assert_eq!(scale_number(&sci(true, 2125, -2), 10, false), Some(-213));
    assert_eq!(scale_number(&sci(false, 501, -2), 36, false), Some(180));
    assert_eq!(scale_number(&sci(false, 4999, -3), 36, false), Some(180));
    assert_eq!(scale_number(&sci(false, 25, -1), 36, false), Some(90));
    assert_eq!(scale_number(&sci(false, 1, -7), 36, false), Some(0));
    assert_eq!(scale_number(&sci(true, 1, -400), 10, false), Some(0));
    assert_eq!(scale_number(&sci(false, 5, 3), 10, false), Some(50000));
}

#[test]
fn floor_goes_down() {
    assert_eq!(scale_number(&sci(false, 2249, -2), 10, true), Some(224));
    assert_eq!(scale_number(&sci(true, 2241, -2), 10, true), Some(-225));
    assert_eq!(scale_number(&sci(true, 0, -3), 10, true), Some(0));
    assert_eq!(scale_number(&sci(true, 1, -400), 10, true), Some(-1));
    assert_eq!(scale_number(&sci(false, 1, -400), 10, true), Some(0));
}

#[test]
fn too_large_results_are_refused() {
    assert_eq!(scale_number(&sci(false, 1, 300), 10, false), None);
    assert_eq!(scale_number(&sci(false, 1, 17), 10, false), Some(1_000_000_000_000_000_000));
    assert_eq!(scale_number(&sci(false, 1, 18), 10, false), None);
    assert_eq!(scale_number(&sci(true, u64::MAX, 0), 36, false), None);
}

#[test]
fn number_text_is_read_exactly() {
    let d = parse_number(&chars("-12.50")).ok().unwrap();
    assert_eq!((d.negative, d.mantissa, d.exponent, d.integral), (true, 1250, -2, false));
    let d = parse_number(&chars("7")).ok().unwrap();
    assert_eq!((d.negative, d.mantissa, d.exponent, d.integral), (false, 7, 0, true));
    let d = parse_number(&chars("1e-7")).ok().unwrap();
    assert_eq!((d.mantissa, d.exponent, d.integral), (1, -7, false));
    let d = parse_number(&chars("-2.5E+3")).ok().unwrap();
    assert_eq!((d.negative, d.mantissa, d.exponent), (true, 25, 2));
    let d = parse_number(&chars("0.30000000000000004")).ok().unwrap();
    assert_eq!((d.mantissa, d.exponent), (30000000000000004, -17));
    let d = parse_number(&chars("18446744073709551615")).ok().unwrap();
    assert_eq!(d.mantissa, u64::MAX);
    for bad in ["", "-", ".5", "5.", "1.2.3", "+1", "1e", "1e+", "e5", "1.e5", "--1", "1x"] {
        assert_eq!(parse_number(&chars(bad)).err(), Some(NumberError::Malformed), "{}", bad);
    }
    for big in ["18446744073709551616", "1e1000000001"] {
        assert_eq!(parse_number(&chars(big)).err(), Some(NumberError::OutOfRange), "{}", big);
    }
}

#[test]
fn tenth_is_exact() {
    let d = tenth_of(&sci(false, 1013, 0)).unwrap();
    assert_eq!((d.negative, d.mantissa, d.scale), (false, 1013, 1));
    let d = tenth_of(&sci(false, 15, 2)).unwrap();
    assert_eq!((d.mantissa, d.scale), (150, 0));
    let d = tenth_of(&sci(false, 1, -7)).unwrap();
    assert_eq!((d.mantissa, d.scale), (1, 8));
    assert!(tenth_of(&sci(false, 1, -38)).is_none());
    assert!(tenth_of(&sci(false, 1, 300)).is_none());
    assert!(tenth_of(&sci(true, 0, 300)).is_some());
}

#[test]
fn exponent_form_payloads_are_read() {
    let body = r#"{"name":"Calm","sys":{"country":"ZZ"},"weather":[{"description":"still air"}],"main":{"temp":1e-7,"humidity":40,"pressure":1e3},"wind":{"deg":3.5e2,"speed":1e-7}}"#;
    let w = parse_weather(body).ok().unwrap();
    assert_eq!(w.temperature_tenths, 0);
    assert_eq!(w.wind_speed_tenths, 0);
    assert_eq!(w.wind_cardinal_direction, "N");
    assert_eq!((w.pressure.mantissa, w.pressure.scale), (10000, 2));
    let body = r#"{"name":"X","sys":{"country":"Y"},"main":{"temp":0.30000000000000004,"humidity":1,"pressure":2},"wind":{"deg":0,"speed":1}}"#;
    assert_eq!(parse_weather(body).ok().unwrap().temperature_tenths, 3);
}

#[test]
fn out_of_range_is_its_own_error() {
    let body = r#"{"name":"X","sys":{"country":"Y"},"main":{"temp":1e300,"humidity":1,"pressure":2},"wind":{"deg":0,"speed":1}}"#;
    assert_eq!(
        parse_weather(body).err(),
        Some(ParseError::OutOfRange(RequiredField::Temperature))
    );
    let body = r#"{"name":"X","sys":{"country":"Y"},"main":{"temp":1,"humidity":1,"pressure":2},"wind":{"deg":0,"speed":1e20}}"#;
    assert_eq!(
        weather_from_response(Some(body)).err(),
        Some(WeatherError::Parse(ParseError::OutOfRange(RequiredField::WindSpeed)))
    );
}

#[test]
fn documents_keep_numbers_as_text() {
    match parse_document(r#"{"a":[1.5,true,null,"x"]}"#) {
        Some(JsonValue::Object(entries)) => {
            assert_eq!(entries.len(), 1);
            assert_eq!(entries[0].0, "a");
            match &entries[0].1 {
                JsonValue::Array(items) => {
                    assert_eq!(items.len(), 4);
                    assert!(matches!(&items[0], JsonValue::Number(t) if *t == chars("1.5")));
                    assert!(matches!(items[1], JsonValue::Bool(true)));
                    assert!(matches!(items[2], JsonValue::Null));
                    assert!(matches!(&items[3], JsonValue::Str(s) if s == "x"));
                }
                _ => panic!("expected an array"),
            }
        }
        _ => panic!("expected an object"),
    }
    assert!(parse_document("[1,").is_none());
}
