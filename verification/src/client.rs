//! The weather client's computing half: building the request URL for a
//! query, and decoding a response body into a report. The network call
//! itself lives outside the library; whoever performs it hands the body
//! text to `decode_report`.
//!
//! Decoding is stated against a mathematical model of the parsed JSON
//! tree. The parse itself is serde_json's: its result on a given text is
//! named (`json_model_of`), never restated, and every accessor that walks
//! the tree carries a contract over that model.

use crate::errors::WeatherError;
use crate::numbers::parse_tenths;
use crate::numbers::tenths_of;
use crate::report::Condition;
use crate::report::Metrics;
use crate::report::WeatherQuery;
use crate::report::WeatherReport;
use crate::report::Wind;
use vstd::prelude::*;
use vstd::string::StringExecFns;

verus! {

/// The request URL: the fixed endpoint, the location as `city,country`,
/// the credential, and the flag asking for metric units.
pub open spec fn spec_request_url(q: WeatherQuery, credential: Seq<char>) -> Seq<char> {
    "http://api.openweathermap.org/data/2.5/weather?q="@ + q.city@ + ","@ + q.country_code@
        + "&appid="@ + credential + "&units=metric"@
}

/// Builds the URL that queries the provider for the given city and country.
pub fn request_url(q: &WeatherQuery, credential: &str) -> (u: String)
    ensures
        u@ == spec_request_url(*q, credential@),
{
    let mut out = String::from_str("http://api.openweathermap.org/data/2.5/weather?q=");
    out.append(q.city.as_str());
    out.append(",");
    out.append(q.country_code.as_str());
    out.append("&appid=");
    out.append(credential);
    out.append("&units=metric");
    proof {
        assert(out@ =~= spec_request_url(*q, credential@));
    }
    out
}

/// The mathematical shape of a parsed JSON document: null, a boolean, a
/// number held as its decimal text, a string, an array of shapes, or an
/// object as a map from member name to shape.
pub enum JsonModel {
    Null,
    Bool(bool),
    Num(Seq<char>),
    Text(Seq<char>),
    Arr(Seq<JsonModel>),
    Obj(Map<Seq<char>, JsonModel>),
}

/// What serde_json's parser yields on a text: the parsed tree's shape, or
/// None when the text is not well-formed JSON. The JSON grammar is
/// serde_json's business, so the result is named, not restated.
pub uninterp spec fn json_model_of(s: Seq<char>) -> Option<JsonModel>;

/// The member of an object shape under a name; None for a missing member
/// or a shape that is not an object.
pub open spec fn obj_member(m: JsonModel, key: Seq<char>) -> Option<JsonModel> {
    match m {
        JsonModel::Obj(members) => if members.contains_key(key) {
            Some(members[key])
        } else {
            None
        },
        _ => None,
    }
}

/// The text of a string-valued member.
pub open spec fn member_text(m: JsonModel, key: Seq<char>) -> Option<Seq<char>> {
    match obj_member(m, key) {
        Some(JsonModel::Text(t)) => Some(t),
        _ => None,
    }
}

/// The decimal text of a number-valued member.
pub open spec fn member_number(m: JsonModel, key: Seq<char>) -> Option<Seq<char>> {
    match obj_member(m, key) {
        Some(JsonModel::Num(t)) => Some(t),
        _ => None,
    }
}

/// The elements of an array-valued member.
pub open spec fn member_array(m: JsonModel, key: Seq<char>) -> Option<Seq<JsonModel>> {
    match obj_member(m, key) {
        Some(JsonModel::Arr(a)) => Some(a),
        _ => None,
    }
}

/// The description text of one weather entry.
pub open spec fn description_of(e: JsonModel) -> Option<Seq<char>> {
    member_text(e, "description"@)
}

/// The decimal text of a numeric member of a named object member of the
/// root.
pub open spec fn nested_number(m: JsonModel, object: Seq<char>, key: Seq<char>) -> Option<
    Seq<char>,
> {
    match obj_member(m, object) {
        Some(o) => member_number(o, key),
        None => None,
    }
}

/// Whether a parsed body has the report's shape: a `weather` array whose
/// every entry carries a `description` text, numeric `temp`, `pressure`
/// and `humidity` under `main`, a numeric `speed` under `wind`, and a
/// `name` text. Members beyond these are ignored.
pub open spec fn body_shape_ok(m: JsonModel) -> bool {
    &&& member_array(m, "weather"@) is Some
    &&& (forall|i: int|
        0 <= i < member_array(m, "weather"@).unwrap().len() ==> description_of(
            #[trigger] member_array(m, "weather"@).unwrap()[i],
        ) is Some)
    &&& nested_number(m, "main"@, "temp"@) is Some
    &&& nested_number(m, "main"@, "pressure"@) is Some
    &&& nested_number(m, "main"@, "humidity"@) is Some
    &&& nested_number(m, "wind"@, "speed"@) is Some
    &&& member_text(m, "name"@) is Some
}

/// The plain texts a report is assembled from, exactly as they stand in a
/// body of the right shape.
pub struct WeatherFields {
    pub location: Seq<char>,
    pub descriptions: Seq<Seq<char>>,
    pub temperature_text: Seq<char>,
    pub pressure_text: Seq<char>,
    pub humidity_text: Seq<char>,
    pub wind_text: Seq<char>,
}

/// The texts held by a body of the right shape.
pub open spec fn shape_fields(m: JsonModel) -> WeatherFields
    recommends
        body_shape_ok(m),
{
    WeatherFields {
        location: member_text(m, "name"@).unwrap(),
        descriptions: Seq::new(
            member_array(m, "weather"@).unwrap().len(),
            |i: int| description_of(member_array(m, "weather"@).unwrap()[i]).unwrap(),
        ),
        temperature_text: nested_number(m, "main"@, "temp"@).unwrap(),
        pressure_text: nested_number(m, "main"@, "pressure"@).unwrap(),
        humidity_text: nested_number(m, "main"@, "humidity"@).unwrap(),
        wind_text: nested_number(m, "wind"@, "speed"@).unwrap(),
    }
}

/// The declaration of serde_json's JSON tree type, so that values of it
/// can be carried through the decoder; the library never looks inside one
/// except through the trusted accessors below.
#[verifier::external_type_specification]
#[verifier::external_body]
pub struct ExJsonValue(serde_json::Value);

/// The shape a serde_json tree stands for: what the value holds, as the
/// model above. Named, not stated; every trusted accessor below speaks of
/// it.
pub uninterp spec fn json_shape(v: serde_json::Value) -> JsonModel;

/// Relies on serde_json::from_str: parses JSON text into a Value tree,
/// None when the text is not well-formed JSON. The tree's shape is the
/// named parse result of the text.
#[verifier::external_body]
fn json_parse(s: &str) -> (r: Option<serde_json::Value>)
    ensures
        r is Some <==> json_model_of(s@) is Some,
        r matches Some(v) ==> json_model_of(s@) == Some(json_shape(v)),
{
    serde_json::from_str(s).ok()
}

/// Relies on serde_json::Value::get: the member of a JSON object under a
/// key; None for a missing key or a value that is not an object.
#[verifier::external_body]
fn json_member<'a>(v: &'a serde_json::Value, key: &str) -> (r: Option<&'a serde_json::Value>)
    ensures
        match obj_member(json_shape(*v), key@) {
            Some(c) => r matches Some(cv) && json_shape(*cv) == c,
            None => r is None,
        },
{
    v.get(key)
}

/// Relies on serde_json::Value::as_array: the elements of a JSON array in
/// order; None for a value that is not an array.
#[verifier::external_body]
fn json_elements<'a>(v: &'a serde_json::Value) -> (r: Option<&'a Vec<serde_json::Value>>)
    ensures
        match json_shape(*v) {
            JsonModel::Arr(elems) => r matches Some(av) && av@.len() == elems.len() && (forall|
                i: int,
            |
                0 <= i < elems.len() ==> json_shape(#[trigger] av@[i]) == elems[i]),
            _ => r is None,
        },
{
    v.as_array()
}

/// Relies on serde_json::Value::as_str: the text of a JSON string; None
/// for a value that is not a string.
#[verifier::external_body]
fn json_text(v: &serde_json::Value) -> (r: Option<String>)
    ensures
        match json_shape(*v) {
            JsonModel::Text(t) => r matches Some(s) && s@ == t,
            _ => r is None,
        },
{
    match v.as_str() {
        Some(s) => Some(s.to_owned()),
        None => None,
    }
}

/// Relies on serde_json::Value::as_number and Number::as_str (with the
/// arbitrary_precision feature): the decimal text of a JSON number exactly
/// as it stood in the input; None for a value that is not a number.
#[verifier::external_body]
fn json_number_text(v: &serde_json::Value) -> (r: Option<String>)
    ensures
        match json_shape(*v) {
            JsonModel::Num(t) => r matches Some(s) && s@ == t,
            _ => r is None,
        },
{
    match v.as_number() {
        Some(n) => Some(n.as_str().to_owned()),
        None => None,
    }
}

/// The decimal text of a numeric member of an object-shaped value.
fn extract_number(v: &serde_json::Value, key: &str) -> (r: Option<String>)
    ensures
        match member_number(json_shape(*v), key@) {
            Some(t) => r matches Some(s) && s@ == t,
            None => r is None,
        },
{
    match json_member(v, key) {
        Some(c) => json_number_text(c),
        None => None,
    }
}

/// Whether a decimal text names a count of tenths that the report can hold.
pub open spec fn fits_tenths(s: Seq<char>) -> bool {
    match tenths_of(s) {
        Some(v) => i64::MIN <= v <= i64::MAX,
        None => false,
    }
}

/// What decoding owes on a body: a decode failure exactly when the body is
/// not well-formed JSON, lacks the report's shape, or holds a numeric text
/// whose count of tenths the report cannot hold; otherwise the report with
/// exactly the body's fields.
pub open spec fn decode_post(body: Seq<char>, r: Result<WeatherReport, WeatherError>) -> bool {
    match json_model_of(body) {
        None => r == Err::<WeatherReport, WeatherError>(WeatherError::Decode),
        Some(m) => if !body_shape_ok(m) {
            r == Err::<WeatherReport, WeatherError>(WeatherError::Decode)
        } else {
            let f = shape_fields(m);
            match r {
                Ok(rep) => {
                    &&& rep.location_name@ == f.location
                    &&& rep.conditions@.len() == f.descriptions.len()
                    &&& (forall|k: int|
                        0 <= k < f.descriptions.len() ==> (#[trigger] rep.conditions@[k]).description@
                            == f.descriptions[k])
                    &&& tenths_of(f.temperature_text) == Some(rep.metrics.temperature_tenths as int)
                    &&& tenths_of(f.pressure_text) == Some(rep.metrics.pressure_tenths as int)
                    &&& tenths_of(f.humidity_text) == Some(rep.metrics.humidity_tenths as int)
                    &&& tenths_of(f.wind_text) == Some(rep.wind.speed_tenths as int)
                },
                Err(e) => {
                    &&& e == WeatherError::Decode
                    &&& (!fits_tenths(f.temperature_text) || !fits_tenths(f.pressure_text)
                        || !fits_tenths(f.humidity_text) || !fits_tenths(f.wind_text))
                },
            }
        },
    }
}

/// Decodes a JSON response body into a report: the `weather` array gives
/// the conditions, the `main` object the temperature, pressure and
/// humidity, the `wind` object the speed, and `name` the location.
/// Succeeds exactly on a well-formed body of that shape whose numeric
/// texts all fit the report's tenths; everything else is a `Decode`
/// failure. A number in exponent form is legal JSON but is deliberately
/// rejected here: the accepted number grammar is the plain decimal one the
/// provider sends, stated in `tenths_of`.
pub fn decode_report(body: &str) -> (r: Result<WeatherReport, WeatherError>)
    ensures
        decode_post(body@, r),
{
    let root = match json_parse(body) {
        Some(j) => j,
        None => {
            return Err(WeatherError::Decode);
        },
    };
    let ghost m = json_shape(root);
    let weather = match json_member(&root, "weather") {
        Some(j) => j,
        None => {
            return Err(WeatherError::Decode);
        },
    };
    let elements = match json_elements(weather) {
        Some(v) => v,
        None => {
            return Err(WeatherError::Decode);
        },
    };
    let ghost elems = member_array(m, "weather"@).unwrap();
    let mut descriptions: Vec<String> = Vec::new();
    let mut idx: usize = 0;
    while idx < elements.len()
        invariant
            json_model_of(body@) == Some(m),
            member_array(m, "weather"@) == Some(elems),
            elements@.len() == elems.len(),
            forall|i: int| 0 <= i < elems.len() ==> json_shape(#[trigger] elements@[i]) == elems[i],
            idx <= elems.len(),
            descriptions@.len() == idx,
            forall|k: int|
                0 <= k < idx ==> description_of(elems[k]) == Some((#[trigger] descriptions@[k])@),
        decreases elements@.len() - idx,
    {
        let entry = match json_member(&elements[idx], "description") {
            Some(j) => j,
            None => {
                proof {
                    assert(description_of(elems[idx as int]) is None);
                    assert(member_array(m, "weather"@).unwrap()[idx as int] == elems[idx as int]);
                    assert(!body_shape_ok(m));
                }
                return Err(WeatherError::Decode);
            },
        };
        let text = match json_text(entry) {
            Some(t) => t,
            None => {
                proof {
                    assert(description_of(elems[idx as int]) is None);
                    assert(member_array(m, "weather"@).unwrap()[idx as int] == elems[idx as int]);
                    assert(!body_shape_ok(m));
                }
                return Err(WeatherError::Decode);
            },
        };
        let ghost pre = descriptions@;
        descriptions.push(text);
        proof {
            assert(json_shape(elements@[idx as int]) == elems[idx as int]);
            assert(description_of(elems[idx as int]) is Some);
            assert(description_of(elems[idx as int]) == Some(descriptions@[idx as int]@));
            assert forall|k: int|
                0 <= k < idx + 1 implies description_of(elems[k]) == Some((
            #[trigger] descriptions@[k])@) by {
                if k < idx {
                    assert(descriptions@[k] == pre[k]);
                }
            }
        }
        idx = idx + 1;
    }
    let main_member = match json_member(&root, "main") {
        Some(j) => j,
        None => {
            return Err(WeatherError::Decode);
        },
    };
    let temperature_text = match extract_number(&main_member, "temp") {
        Some(t) => t,
        None => {
            return Err(WeatherError::Decode);
        },
    };
    let pressure_text = match extract_number(&main_member, "pressure") {
        Some(t) => t,
        None => {
            return Err(WeatherError::Decode);
        },
    };
    let humidity_text = match extract_number(&main_member, "humidity") {
        Some(t) => t,
        None => {
            return Err(WeatherError::Decode);
        },
    };
    let wind_member = match json_member(&root, "wind") {
        Some(j) => j,
        None => {
            return Err(WeatherError::Decode);
        },
    };
    let wind_text = match extract_number(&wind_member, "speed") {
        Some(t) => t,
        None => {
            return Err(WeatherError::Decode);
        },
    };
    let name_member = match json_member(&root, "name") {
        Some(j) => j,
        None => {
            return Err(WeatherError::Decode);
        },
    };
    let location = match json_text(&name_member) {
        Some(t) => t,
        None => {
            return Err(WeatherError::Decode);
        },
    };
    proof {
        assert forall|i: int|
            0 <= i < member_array(m, "weather"@).unwrap().len() implies description_of(
            #[trigger] member_array(m, "weather"@).unwrap()[i],
        ) is Some by {
            assert(descriptions@[i]@ == description_of(elems[i]).unwrap());
            assert(description_of(elems[i]) is Some);
        }
        assert(body_shape_ok(m));
    }
    let ghost f = shape_fields(m);
    let result = assemble_report(
        location,
        descriptions,
        temperature_text.as_str(),
        pressure_text.as_str(),
        humidity_text.as_str(),
        wind_text.as_str(),
    );
    proof {
        if let Ok(rep) = &result {
            assert forall|k: int| 0 <= k < f.descriptions.len() implies (#[trigger] rep.conditions@[k]).description@
                == f.descriptions[k] by {
                assert(rep.conditions@[k].description == descriptions@[k]);
                assert(descriptions@[k]@ == description_of(elems[k]).unwrap());
            }
        }
    }
    result
}

/// Builds a report from the plain values extracted out of a response: the
/// location name, the description of each condition in order, and the
/// decimal text of each numeric field. Succeeds exactly when every numeric
/// text is an accepted decimal whose value in tenths fits the report.
pub fn assemble_report(
    location: String,
    descriptions: Vec<String>,
    temperature_text: &str,
    pressure_text: &str,
    humidity_text: &str,
    wind_text: &str,
) -> (r: Result<WeatherReport, WeatherError>)
    ensures
        match r {
            Ok(rep) => {
                &&& rep.location_name == location
                &&& rep.conditions@.len() == descriptions@.len()
                &&& forall|k: int|
                    0 <= k < descriptions@.len() ==> (#[trigger] rep.conditions@[k]).description
                        == descriptions@[k]
                &&& tenths_of(temperature_text@) == Some(rep.metrics.temperature_tenths as int)
                &&& tenths_of(pressure_text@) == Some(rep.metrics.pressure_tenths as int)
                &&& tenths_of(humidity_text@) == Some(rep.metrics.humidity_tenths as int)
                &&& tenths_of(wind_text@) == Some(rep.wind.speed_tenths as int)
            },
            Err(e) => {
                &&& e == WeatherError::Decode
                &&& (!fits_tenths(temperature_text@) || !fits_tenths(pressure_text@)
                    || !fits_tenths(humidity_text@) || !fits_tenths(wind_text@))
            },
        },
{
    let temperature_tenths = match parse_tenths(temperature_text) {
        Some(v) => v,
        None => {
            return Err(WeatherError::Decode);
        },
    };
    let pressure_tenths = match parse_tenths(pressure_text) {
        Some(v) => v,
        None => {
            return Err(WeatherError::Decode);
        },
    };
    let humidity_tenths = match parse_tenths(humidity_text) {
        Some(v) => v,
        None => {
            return Err(WeatherError::Decode);
        },
    };
    let speed_tenths = match parse_tenths(wind_text) {
        Some(v) => v,
        None => {
            return Err(WeatherError::Decode);
        },
    };
    let mut conditions: Vec<Condition> = Vec::new();
    let mut idx: usize = 0;
    while idx < descriptions.len()
        invariant
            idx <= descriptions@.len(),
            conditions@.len() == idx,
            forall|k: int|
                0 <= k < idx ==> (#[trigger] conditions@[k]).description == descriptions@[k],
        decreases descriptions@.len() - idx,
    {
        conditions.push(Condition { description: descriptions[idx].clone() });
        idx = idx + 1;
    }
    Ok(
        WeatherReport {
            conditions,
            metrics: Metrics { temperature_tenths, humidity_tenths, pressure_tenths },
            wind: Wind { speed_tenths },
            location_name: location,
        },
    )
}

} // verus!
