use weather_station::WeatherError;
use weather_station::WeatherQuery;
use weather_station::assemble_report;
use weather_station::decode_report;
use weather_station::render;
use weather_station::request_url;

fn body_for_london() -> String {
    let mut body = String::from("{\"weather\":[{\"description\":\"few clouds\"}],");
    body.push_str("\"main\":{\"temp\":15.0,\"humidity\":80,\"pressure\":1012.3},");
    body.push_str("\"wind\":{\"speed\":4.15},");
    body.push_str("\"name\":\"London\"}");
    body
}

#[test]
fn the_url_carries_location_credential_and_units() {
    let q = WeatherQuery { city: "London".to_string(), country_code: "GB".to_string() };
    assert_eq!(
        request_url(&q, "k123"),
        "http://api.openweathermap.org/data/2.5/weather?q=London,GB&appid=k123&units=metric"
    );
}

#[test]
fn a_complete_body_decodes_into_the_report() {
    let rep = decode_report(&body_for_london()).expect("the body decodes");
    assert_eq!(rep.location_name, "London");
    assert_eq!(rep.conditions.len(), 1);
    assert_eq!(rep.conditions[0].description, "few clouds");
    assert_eq!(rep.metrics.temperature_tenths, 150);
    assert_eq!(rep.metrics.humidity_tenths, 800);
    assert_eq!(rep.metrics.pressure_tenths, 10123);
    assert_eq!(rep.wind.speed_tenths, 42);
}

#[test]
fn a_body_missing_the_main_object_is_a_decode_error() {
    let body = "{\"weather\":[{\"description\":\"few clouds\"}],\"wind\":{\"speed\":4.1},\"name\":\"London\"}";
    assert_eq!(decode_report(body), Err(WeatherError::Decode));
}

#[test]
fn bodies_of_the_wrong_shape_are_decode_errors() {
    assert_eq!(decode_report("not json at all"), Err(WeatherError::Decode));
    assert_eq!(decode_report("{}"), Err(WeatherError::Decode));
    assert_eq!(decode_report("[1,2,3]"), Err(WeatherError::Decode));
    // a condition without a description
    assert_eq!(
        decode_report(
            "{\"weather\":[{}],\"main\":{\"temp\":1,\"humidity\":2,\"pressure\":3},\"wind\":{\"speed\":4},\"name\":\"X\"}"
        ),
        Err(WeatherError::Decode)
    );
    // a textual temperature
    assert_eq!(
        decode_report(
            "{\"weather\":[],\"main\":{\"temp\":\"hot\",\"humidity\":2,\"pressure\":3},\"wind\":{\"speed\":4},\"name\":\"X\"}"
        ),
        Err(WeatherError::Decode)
    );
    // a missing location name
    assert_eq!(
        decode_report(
            "{\"weather\":[],\"main\":{\"temp\":1,\"humidity\":2,\"pressure\":3},\"wind\":{\"speed\":4}}"
        ),
        Err(WeatherError::Decode)
    );
}

#[test]
fn an_empty_weather_array_decodes_but_does_not_render() {
    let mut body = String::from("{\"weather\":[],");
    body.push_str("\"main\":{\"temp\":15.0,\"humidity\":80,\"pressure\":1012.3},");
    body.push_str("\"wind\":{\"speed\":4.1},\"name\":\"London\"}");
    let rep = decode_report(&body).expect("the body decodes");
    assert_eq!(rep.conditions.len(), 0);
    assert_eq!(render(&rep), Err(WeatherError::EmptyConditions));
}

#[test]
fn integer_fields_count_as_whole_tenths() {
    let rep = assemble_report(
        "Oslo".to_string(),
        vec!["snow".to_string()],
        "-7",
        "990",
        "100",
        "0",
    )
    .expect("plain integers assemble");
    assert_eq!(rep.metrics.temperature_tenths, -70);
    assert_eq!(rep.metrics.pressure_tenths, 9900);
    assert_eq!(rep.metrics.humidity_tenths, 1000);
    assert_eq!(rep.wind.speed_tenths, 0);
    assert_eq!(rep.conditions[0].description, "snow");
}

#[test]
fn an_exponent_number_is_a_decode_error() {
    let rep = assemble_report(
        "X".to_string(),
        Vec::new(),
        "1.5e3",
        "1",
        "1",
        "1",
    );
    assert_eq!(rep, Err(WeatherError::Decode));
}
