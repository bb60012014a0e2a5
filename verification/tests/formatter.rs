use weather_station::Condition;
use weather_station::Metrics;
use weather_station::Style;
use weather_station::TempBucket;
use weather_station::WeatherError;
use weather_station::WeatherReport;
use weather_station::Wind;
use weather_station::bucket;
use weather_station::icon_text;
use weather_station::render;
use weather_station::style_of;

fn report(description: &str, temperature_tenths: i64) -> WeatherReport {
    WeatherReport {
        conditions: vec![Condition { description: description.to_string() }],
        metrics: Metrics { temperature_tenths, humidity_tenths: 800, pressure_tenths: 10120 },
        wind: Wind { speed_tenths: 41 },
        location_name: "London".to_string(),
    }
}

#[test]
fn bucket_boundaries_are_inclusive_on_the_lower_end() {
    assert_eq!(bucket(-1), TempBucket::Cold);
    assert_eq!(bucket(0), TempBucket::Cool);
    assert_eq!(bucket(99), TempBucket::Cool);
    assert_eq!(bucket(100), TempBucket::Mild);
    assert_eq!(bucket(199), TempBucket::Mild);
    assert_eq!(bucket(200), TempBucket::Warm);
    assert_eq!(bucket(299), TempBucket::Warm);
    assert_eq!(bucket(300), TempBucket::Hot);
    assert_eq!(bucket(i64::MIN), TempBucket::Cold);
    assert_eq!(bucket(i64::MAX), TempBucket::Hot);
}

#[test]
fn each_bucket_has_its_icon() {
    assert_eq!(icon_text(TempBucket::Cold), "\u{2744}");
    assert_eq!(icon_text(TempBucket::Cool), "\u{2601}");
    assert_eq!(icon_text(TempBucket::Mild), "\u{1f325}\u{fe0f}");
    assert_eq!(icon_text(TempBucket::Warm), "\u{1f324}\u{fe0f}");
    assert_eq!(icon_text(TempBucket::Hot), "\u{1f31e}");
}

#[test]
fn vocabulary_selects_the_documented_styles() {
    assert_eq!(style_of("clear sky"), Style::Sunny);
    assert_eq!(style_of("few clouds"), Style::Cloudy);
    assert_eq!(style_of("scattered clouds"), Style::Cloudy);
    assert_eq!(style_of("broken clouds"), Style::Cloudy);
    assert_eq!(style_of("overcast clouds"), Style::Obscured);
    assert_eq!(style_of("mist"), Style::Obscured);
    assert_eq!(style_of("haze"), Style::Obscured);
    assert_eq!(style_of("smoke"), Style::Obscured);
    assert_eq!(style_of("sand"), Style::Obscured);
    assert_eq!(style_of("dust"), Style::Obscured);
    assert_eq!(style_of("fog"), Style::Obscured);
    assert_eq!(style_of("shower rain"), Style::Precipitation);
    assert_eq!(style_of("rain"), Style::Precipitation);
    assert_eq!(style_of("thunderstorm"), Style::Precipitation);
    assert_eq!(style_of("snow"), Style::Precipitation);
}

#[test]
fn unknown_descriptions_fall_through_to_the_neutral_style() {
    assert_eq!(style_of("drizzle"), Style::Neutral);
    assert_eq!(style_of("Clear Sky"), Style::Neutral);
    assert_eq!(style_of("clear sky "), Style::Neutral);
    assert_eq!(style_of(""), Style::Neutral);
}

#[test]
fn unknown_description_still_renders() {
    let rep = report("volcanic ash", 150);
    let text = render(&rep).expect("a report with a condition renders");
    assert!(text.contains("volcanic ash"));
}

#[test]
fn empty_conditions_is_a_recoverable_error() {
    let mut rep = report("few clouds", 150);
    rep.conditions.clear();
    assert_eq!(render(&rep), Err(WeatherError::EmptyConditions));
}

#[test]
fn london_report_renders_with_the_mild_icon_and_highlighted_style() {
    let rep = report("few clouds", 150);
    let text = render(&rep).expect("the report renders");
    assert!(text.contains("London"));
    assert!(text.contains("\u{1f325}\u{fe0f}"));
    assert!(text.contains("15.0"));
    assert_eq!(style_of(&rep.conditions[0].description), Style::Cloudy);
}

#[test]
fn render_produces_the_exact_report_text() {
    let rep = report("few clouds", 150);
    let text = render(&rep).expect("the report renders");
    assert_eq!(
        text,
        "Weather in London : few clouds \u{1f325}\u{fe0f}\n> Temperature : 15.0 C\n> Pressure : 1012.0 hPa\n> Humidity : 80.0 %\n> Wind Speed : 4.1 m/s"
    );
}

#[test]
fn error_messages_name_their_cause() {
    assert_eq!(
        WeatherError::MissingCredential.message(),
        "missing API credential in the environment"
    );
    assert_eq!(
        WeatherError::Transport("connection refused".to_string()).message(),
        "network request failed: connection refused"
    );
    assert_eq!(WeatherError::Decode.message(), "could not decode the weather response");
    assert_eq!(
        WeatherError::EmptyConditions.message(),
        "the report contains no weather conditions"
    );
}
