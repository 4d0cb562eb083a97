//! Reading a weather provider's answer into a normalised `WeatherInfo`.
use crate::compass::{cardinal_of, deg_to_cardinal};
use crate::decimal::{
    fits_i64, number_of_text, parse_number, scale_number, scaled, tenth_of, tenth_spec, Decimal,
    NumberError, Scientific, MAX_SCALE,
};
use crate::json::{
    element, element_of, json_document, member, member_of, parse_document, text, text_of,
    JsonValue,
};
use vstd::prelude::*;

verus! {

/// A field that a weather answer must hold.
#[derive(Debug, Clone, Copy, PartialEq, Eq, Structural)]
pub enum RequiredField {
    Location,
    Country,
    Temperature,
    Humidity,
    Pressure,
    WindDirection,
    WindSpeed,
}

/// Why a response body could not be read as weather.
#[derive(Debug, Clone, Copy, PartialEq, Eq, Structural)]
pub enum ParseError {
    /// The body is not a JSON document.
    MalformedJson,
    /// A required field is absent or not of the expected type.
    MissingField(RequiredField),
    /// A required number is well formed, but what it gives does not fit:
    /// more than `i64::MAX` tenths, a mantissa beyond `u64::MAX`, or a
    /// pressure with more than `MAX_SCALE` decimal places.
    OutOfRange(RequiredField),
}

/// Why no weather could be had.
#[derive(Debug, Clone, Copy, PartialEq, Eq, Structural)]
pub enum WeatherError {
    /// The request itself failed: no response body came back.
    Transport,
    /// A body came back but could not be read.
    Parse(ParseError),
}

/// Current conditions at one place.
pub struct WeatherInfo {
    pub location: String,
    pub country: String,
    /// The provider's description in title case; empty when it gave none.
    pub weather_description: String,
    /// Set when the provider gave no description.
    pub description_missing: bool,
    /// Degrees Celsius times ten, rounded to the nearest tenth.
    pub temperature_tenths: i64,
    /// Relative humidity in percent.
    pub humidity: u64,
    /// The provider's pressure figure divided by ten, exactly.
    pub pressure: Decimal,
    pub wind_cardinal_direction: String,
    /// Wind speed in km/h times ten (the provider's m/s times 36), rounded.
    pub wind_speed_tenths: i64,
}

/// The title-case form of `s`.
pub uninterp spec fn title_case_of(s: Seq<char>) -> Seq<char>;

/// Relies on titlecase::titlecase: the title-case form of `s`, which depends
/// on the characters of `s` alone.
#[verifier::external_body]
fn title_case(s: &str) -> (r: String)
    ensures
        r@ == title_case_of(s@),
{
    titlecase::titlecase(s)
}

/// How the text of `v` reads, where `v` is a number.
pub open spec fn number_of(v: Option<JsonValue>) -> Option<Result<Scientific, NumberError>> {
    match v {
        Some(JsonValue::Number(t)) => Some(number_of_text(t@)),
        _ => None,
    }
}

/// `None` where `v` is no number; `Some(None)` where what it gives does not
/// fit; else `factor` times it, rounded down or to nearest as `floor` says.
pub open spec fn scaled_of(v: Option<JsonValue>, factor: int, floor: bool) -> Option<Option<int>> {
    match number_of(v) {
        Some(Ok(n)) => if fits_i64(scaled(n, factor, floor)) {
            Some(Some(scaled(n, factor, floor)))
        } else {
            Some(None)
        },
        Some(Err(NumberError::OutOfRange)) => Some(None),
        _ => None,
    }
}

/// The whole number that `v` holds, where `v` is a non-negative integer.
pub open spec fn count_of(v: Option<JsonValue>) -> Option<Option<u64>> {
    match number_of(v) {
        Some(Ok(n)) => if n.integral && !n.negative {
            Some(Some(n.mantissa))
        } else {
            None
        },
        Some(Err(NumberError::OutOfRange)) => Some(None),
        _ => None,
    }
}

/// The number that `v` holds, divided by ten, exactly.
pub open spec fn tenth_of_field(v: Option<JsonValue>) -> Option<Option<Decimal>> {
    match number_of(v) {
        Some(Ok(n)) => Some(tenth_spec(n)),
        Some(Err(NumberError::OutOfRange)) => Some(None),
        _ => None,
    }
}

/// The error for field `f`, if its reading `x` failed.
pub open spec fn problem<T>(x: Option<Option<T>>, f: RequiredField) -> Option<ParseError> {
    match x {
        None => Some(ParseError::MissingField(f)),
        Some(None) => Some(ParseError::OutOfRange(f)),
        Some(Some(_)) => None,
    }
}

pub open spec fn location_of(doc: JsonValue) -> Option<Seq<char>> {
    text_of(member_of(Some(doc), "name"@))
}

pub open spec fn country_of(doc: JsonValue) -> Option<Seq<char>> {
    text_of(member_of(member_of(Some(doc), "sys"@), "country"@))
}

pub open spec fn description_of(doc: JsonValue) -> Option<Seq<char>> {
    text_of(member_of(element_of(member_of(Some(doc), "weather"@), 0), "description"@))
}

pub open spec fn main_field(doc: JsonValue, key: Seq<char>) -> Option<JsonValue> {
    member_of(member_of(Some(doc), "main"@), key)
}

pub open spec fn wind_field(doc: JsonValue, key: Seq<char>) -> Option<JsonValue> {
    member_of(member_of(Some(doc), "wind"@), key)
}

pub open spec fn temperature_of(doc: JsonValue) -> Option<Option<int>> {
    scaled_of(main_field(doc, "temp"@), 10, false)
}

pub open spec fn humidity_of(doc: JsonValue) -> Option<Option<u64>> {
    count_of(main_field(doc, "humidity"@))
}

pub open spec fn pressure_of(doc: JsonValue) -> Option<Option<Decimal>> {
    tenth_of_field(main_field(doc, "pressure"@))
}

pub open spec fn wind_bearing_of(doc: JsonValue) -> Option<Option<int>> {
    scaled_of(wind_field(doc, "deg"@), 10, true)
}

pub open spec fn wind_speed_of(doc: JsonValue) -> Option<Option<int>> {
    scaled_of(wind_field(doc, "speed"@), 36, false)
}

/// The first failing required field, in reading order, and how it fails.
pub open spec fn first_problem(doc: JsonValue) -> Option<ParseError> {
    if location_of(doc) is None {
        Some(ParseError::MissingField(RequiredField::Location))
    } else if country_of(doc) is None {
        Some(ParseError::MissingField(RequiredField::Country))
    } else if problem(temperature_of(doc), RequiredField::Temperature) is Some {
        problem(temperature_of(doc), RequiredField::Temperature)
    } else if problem(humidity_of(doc), RequiredField::Humidity) is Some {
        problem(humidity_of(doc), RequiredField::Humidity)
    } else if problem(pressure_of(doc), RequiredField::Pressure) is Some {
        problem(pressure_of(doc), RequiredField::Pressure)
    } else if problem(wind_bearing_of(doc), RequiredField::WindDirection) is Some {
        problem(wind_bearing_of(doc), RequiredField::WindDirection)
    } else {
        problem(wind_speed_of(doc), RequiredField::WindSpeed)
    }
}

impl WeatherInfo {
    /// Every field is the documented derivation from the fields of `doc`.
    pub open spec fn describes(&self, doc: JsonValue) -> bool {
        &&& self.location@ == location_of(doc)->0
        &&& self.country@ == country_of(doc)->0
        &&& match description_of(doc) {
            Some(d) => self.weather_description@ == title_case_of(d) && !self.description_missing,
            None => self.weather_description@ == Seq::<char>::empty() && self.description_missing,
        }
        &&& self.temperature_tenths == temperature_of(doc)->0->0
        &&& self.humidity == humidity_of(doc)->0->0
        &&& self.pressure == pressure_of(doc)->0->0
        &&& self.pressure.scale <= MAX_SCALE
        &&& self.wind_cardinal_direction@ == cardinal_of(wind_bearing_of(doc)->0->0)
        &&& self.wind_speed_tenths == wind_speed_of(doc)->0->0
    }
}

/// `r` is what reading the document `doc` gives: the first missing field as
/// the error, else the record that the fields describe.
pub open spec fn read_from(r: Result<WeatherInfo, ParseError>, doc: JsonValue) -> bool {
    match first_problem(doc) {
        Some(e) => r == Err::<WeatherInfo, ParseError>(e),
        None => r matches Ok(w) && w.describes(doc),
    }
}

/// A document without a description is read as one with an empty
/// description: it fails exactly where a required field is missing, never
/// for the description's sake, and the record marks the description absent.
pub proof fn description_is_optional(r: Result<WeatherInfo, ParseError>, doc: JsonValue)
    requires
        read_from(r, doc),
        description_of(doc) is None,
    ensures
        r is Ok <==> first_problem(doc) is None,
        r matches Ok(w) ==> w.weather_description@ == Seq::<char>::empty() && w.description_missing,
        r matches Err(e) ==> e != ParseError::MalformedJson,
{
}

fn number_in(v: Option<&JsonValue>) -> (r: Option<Result<Scientific, NumberError>>)
    ensures
        r == number_of(crate::json::target(v)),
{
    match v {
        Some(JsonValue::Number(t)) => Some(parse_number(t)),
        _ => None,
    }
}

fn scaled_in(v: Option<&JsonValue>, factor: u64, floor: bool) -> (r: Option<Option<i64>>)
    requires
        1 <= factor <= 36,
    ensures
        match r {
            Some(Some(x)) => scaled_of(crate::json::target(v), factor as int, floor) == Some(
                Some(x as int),
            ),
            Some(None) => scaled_of(crate::json::target(v), factor as int, floor) == Some(
                None::<int>,
            ),
            None => scaled_of(crate::json::target(v), factor as int, floor) is None,
        },
{
    match number_in(v) {
        Some(Ok(n)) => Some(scale_number(&n, factor, floor)),
        Some(Err(NumberError::OutOfRange)) => Some(None),
        _ => None,
    }
}

fn count_in(v: Option<&JsonValue>) -> (r: Option<Option<u64>>)
    ensures
        r == count_of(crate::json::target(v)),
{
    match number_in(v) {
        Some(Ok(n)) => if n.integral && !n.negative {
            Some(Some(n.mantissa))
        } else {
            None
        },
        Some(Err(NumberError::OutOfRange)) => Some(None),
        _ => None,
    }
}

fn tenth_in(v: Option<&JsonValue>) -> (r: Option<Option<Decimal>>)
    ensures
        r == tenth_of_field(crate::json::target(v)),
        r matches Some(Some(d)) ==> d.scale <= MAX_SCALE,
{
    match number_in(v) {
        Some(Ok(n)) => Some(tenth_of(&n)),
        Some(Err(NumberError::OutOfRange)) => Some(None),
        _ => None,
    }
}

/// Reads the weather record out of a parsed provider answer. The
/// description is optional; every other field is required.
pub fn weather_from_json(doc: &JsonValue) -> (r: Result<WeatherInfo, ParseError>)
    ensures
        read_from(r, *doc),
{
    let root = Some(doc);
    let location = match text(member(root, "name")) {
        Some(s) => s.clone(),
        None => return Err(ParseError::MissingField(RequiredField::Location)),
    };
    let country = match text(member(member(root, "sys"), "country")) {
        Some(s) => s.clone(),
        None => return Err(ParseError::MissingField(RequiredField::Country)),
    };
    let main = member(root, "main");
    let temperature = match scaled_in(member(main, "temp"), 10, false) {
        Some(Some(t)) => t,
        Some(None) => return Err(ParseError::OutOfRange(RequiredField::Temperature)),
        None => return Err(ParseError::MissingField(RequiredField::Temperature)),
    };
    let humidity = match count_in(member(main, "humidity")) {
        Some(Some(h)) => h,
        Some(None) => return Err(ParseError::OutOfRange(RequiredField::Humidity)),
        None => return Err(ParseError::MissingField(RequiredField::Humidity)),
    };
    let pressure = match tenth_in(member(main, "pressure")) {
        Some(Some(d)) => d,
        Some(None) => return Err(ParseError::OutOfRange(RequiredField::Pressure)),
        None => return Err(ParseError::MissingField(RequiredField::Pressure)),
    };
    let wind = member(root, "wind");
    let bearing = match scaled_in(member(wind, "deg"), 10, true) {
        Some(Some(b)) => b,
        Some(None) => return Err(ParseError::OutOfRange(RequiredField::WindDirection)),
        None => return Err(ParseError::MissingField(RequiredField::WindDirection)),
    };
    let speed = match scaled_in(member(wind, "speed"), 36, false) {
        Some(Some(s)) => s,
        Some(None) => return Err(ParseError::OutOfRange(RequiredField::WindSpeed)),
        None => return Err(ParseError::MissingField(RequiredField::WindSpeed)),
    };
    let description = text(member(element(member(root, "weather"), 0), "description"));
    let (weather_description, description_missing) = match description {
        Some(d) => (title_case(d.as_str()), false),
        None => (String::new(), true),
    };
    Ok(
        WeatherInfo {
            location,
            country,
            weather_description,
            description_missing,
            temperature_tenths: temperature,
            humidity,
            pressure,
            wind_cardinal_direction: deg_to_cardinal(bearing),
            wind_speed_tenths: speed,
        },
    )
}

/// Reads a provider's response body: `MalformedJson` where it is not a JSON
/// document, else as `weather_from_json` reads the document.
pub fn parse_weather(body: &str) -> (r: Result<WeatherInfo, ParseError>)
    ensures
        match json_document(body@) {
            None => r == Err::<WeatherInfo, ParseError>(ParseError::MalformedJson),
            Some(doc) => read_from(r, doc),
        },
{
    match parse_document(body) {
        None => Err(ParseError::MalformedJson),
        Some(doc) => weather_from_json(&doc),
    }
}

/// What a single request for weather comes to: `Transport` where no body
/// came back, a `Parse` error where the body could not be read, else the
/// record that the body describes.
pub fn weather_from_response(body: Option<&str>) -> (r: Result<WeatherInfo, WeatherError>)
    ensures
        match body {
            None => r == Err::<WeatherInfo, WeatherError>(WeatherError::Transport),
            Some(b) => match json_document(b@) {
                None => r == Err::<WeatherInfo, WeatherError>(
                    WeatherError::Parse(ParseError::MalformedJson),
                ),
                Some(doc) => match first_problem(doc) {
                    Some(e) => r == Err::<WeatherInfo, WeatherError>(WeatherError::Parse(e)),
                    None => r matches Ok(w) && w.describes(doc),
                },
            },
        },
{
    match body {
        None => Err(WeatherError::Transport),
        Some(b) => match parse_weather(b) {
            Ok(w) => Ok(w),
            Err(e) => Err(WeatherError::Parse(e)),
        },
    }
}

} // verus!
