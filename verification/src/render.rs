//! The presentation formatter: an icon chosen by temperature bucket, a
//! style category chosen by exact match on the condition description, and
//! the multi-line report text.

use crate::errors::WeatherError;
use crate::numbers::format_tenths;
use crate::numbers::spec_format_tenths;
use crate::report::WeatherReport;
use vstd::prelude::*;
use vstd::string::StrSliceExecFns;
use vstd::string::StringExecFns;

verus! {

/// The five temperature buckets, in tenths of a degree Celsius: below zero,
/// [0, 100), [100, 200), [200, 300), and 300 or above. Each bucket includes
/// its lower boundary.
#[derive(Clone, Copy, Debug, PartialEq, Eq, Structural)]
pub enum TempBucket {
    Cold,
    Cool,
    Mild,
    Warm,
    Hot,
}

/// The bucket a temperature falls in.
pub open spec fn bucket_of(t: int) -> TempBucket {
    if t < 0 {
        TempBucket::Cold
    } else if t < 100 {
        TempBucket::Cool
    } else if t < 200 {
        TempBucket::Mild
    } else if t < 300 {
        TempBucket::Warm
    } else {
        TempBucket::Hot
    }
}

/// Every temperature falls in exactly one bucket, each bucket containing
/// its lower boundary: below zero is cold, [0, 100) tenths is cool,
/// [100, 200) is mild, [200, 300) is warm, and 300 tenths or above is hot.
pub proof fn lemma_bucket_total(t: int)
    ensures
        t < 0 <==> bucket_of(t) == TempBucket::Cold,
        0 <= t < 100 <==> bucket_of(t) == TempBucket::Cool,
        100 <= t < 200 <==> bucket_of(t) == TempBucket::Mild,
        200 <= t < 300 <==> bucket_of(t) == TempBucket::Warm,
        300 <= t <==> bucket_of(t) == TempBucket::Hot,
{
}

/// The bucket of a temperature given in tenths of a degree Celsius.
pub fn bucket(t: i64) -> (b: TempBucket)
    ensures
        b == bucket_of(t as int),
{
    if t < 0 {
        TempBucket::Cold
    } else if t < 100 {
        TempBucket::Cool
    } else if t < 200 {
        TempBucket::Mild
    } else if t < 300 {
        TempBucket::Warm
    } else {
        TempBucket::Hot
    }
}

/// The decorative icon of each temperature bucket.
pub open spec fn spec_icon(b: TempBucket) -> Seq<char> {
    match b {
        TempBucket::Cold => "❄"@,
        TempBucket::Cool => "☁"@,
        TempBucket::Mild => "🌥️"@,
        TempBucket::Warm => "🌤️"@,
        TempBucket::Hot => "🌞"@,
    }
}

/// The icon text of a temperature bucket.
pub fn icon_text(b: TempBucket) -> (r: &'static str)
    ensures
        r@ == spec_icon(b),
{
    match b {
        TempBucket::Cold => "❄",
        TempBucket::Cool => "☁",
        TempBucket::Mild => "🌥️",
        TempBucket::Warm => "🌤️",
        TempBucket::Hot => "🌞",
    }
}

/// The display treatment of a report, chosen by its first condition.
#[derive(Clone, Copy, Debug, PartialEq, Eq, Structural)]
pub enum Style {
    /// A clear sky: bright yellow.
    Sunny,
    /// Light cloud cover: bright blue.
    Cloudy,
    /// An obscured sky (overcast, mist, haze, ...): dimmed.
    Obscured,
    /// Rain, thunderstorm or snow: bright cyan.
    Precipitation,
    /// Any description outside the fixed vocabulary: no decoration.
    Neutral,
}

/// Whether a description belongs to the fixed vocabulary that selects a
/// non-neutral style. Matching is exact and case-sensitive.
pub open spec fn in_vocabulary(d: Seq<char>) -> bool {
    ||| d == "clear sky"@
    ||| d == "few clouds"@
    ||| d == "scattered clouds"@
    ||| d == "broken clouds"@
    ||| d == "overcast clouds"@
    ||| d == "mist"@
    ||| d == "haze"@
    ||| d == "smoke"@
    ||| d == "sand"@
    ||| d == "dust"@
    ||| d == "fog"@
    ||| d == "shower rain"@
    ||| d == "rain"@
    ||| d == "thunderstorm"@
    ||| d == "snow"@
}

/// The style selected by a condition description: a closed lookup table,
/// with everything outside the vocabulary mapped to the neutral style.
pub open spec fn spec_style(d: Seq<char>) -> Style {
    if d == "clear sky"@ {
        Style::Sunny
    } else if d == "few clouds"@ || d == "scattered clouds"@ || d == "broken clouds"@ {
        Style::Cloudy
    } else if d == "overcast clouds"@ || d == "mist"@ || d == "haze"@ || d == "smoke"@ || d
        == "sand"@ || d == "dust"@ || d == "fog"@ {
        Style::Obscured
    } else if d == "shower rain"@ || d == "rain"@ || d == "thunderstorm"@ || d == "snow"@ {
        Style::Precipitation
    } else {
        Style::Neutral
    }
}

/// A description outside the fixed vocabulary always selects the neutral
/// style; an unrecognized phrase is not an error.
pub proof fn lemma_unknown_style_neutral(d: Seq<char>)
    requires
        !in_vocabulary(d),
    ensures
        spec_style(d) == Style::Neutral,
{
}

/// Whether two texts hold the same characters.
fn str_eq(a: &str, b: &str) -> (r: bool)
    ensures
        r == (a@ == b@),
{
    let n = a.unicode_len();
    if n != b.unicode_len() {
        return false;
    }
    let mut i: usize = 0;
    while i < n
        invariant
            n == a@.len(),
            n == b@.len(),
            i <= n,
            forall|k: int| 0 <= k < i ==> a@[k] == b@[k],
        decreases n - i,
    {
        if a.get_char(i) != b.get_char(i) {
            return false;
        }
        i = i + 1;
    }
    proof {
        assert(a@ =~= b@);
    }
    true
}

/// The style a description selects, by exact match against the vocabulary.
pub fn style_of(d: &str) -> (st: Style)
    ensures
        st == spec_style(d@),
{
    if str_eq(d, "clear sky") {
        Style::Sunny
    } else if str_eq(d, "few clouds") || str_eq(d, "scattered clouds") || str_eq(
        d,
        "broken clouds",
    ) {
        Style::Cloudy
    } else if str_eq(d, "overcast clouds") || str_eq(d, "mist") || str_eq(d, "haze") || str_eq(
        d,
        "smoke",
    ) || str_eq(d, "sand") || str_eq(d, "dust") || str_eq(d, "fog") {
        Style::Obscured
    } else if str_eq(d, "shower rain") || str_eq(d, "rain") || str_eq(d, "thunderstorm") || str_eq(
        d,
        "snow",
    ) {
        Style::Precipitation
    } else {
        Style::Neutral
    }
}

/// The report text: location, first condition with its icon, then one line
/// for each metric with one digit after the decimal point.
pub open spec fn spec_render(rep: WeatherReport) -> Seq<char> {
    "Weather in "@ + rep.location_name@ + " : "@ + rep.conditions@[0].description@ + " "@
        + spec_icon(bucket_of(rep.metrics.temperature_tenths as int)) + "\n> Temperature : "@
        + spec_format_tenths(rep.metrics.temperature_tenths as int) + " C\n> Pressure : "@
        + spec_format_tenths(rep.metrics.pressure_tenths as int) + " hPa\n> Humidity : "@
        + spec_format_tenths(rep.metrics.humidity_tenths as int) + " %\n> Wind Speed : "@
        + spec_format_tenths(rep.wind.speed_tenths as int) + " m/s"@
}

/// Formats a report as a multi-line text. A report with no conditions has
/// nothing to describe and is rejected rather than indexed blindly.
pub fn render(rep: &WeatherReport) -> (r: Result<String, WeatherError>)
    ensures
        match r {
            Ok(text) => rep.conditions@.len() > 0 && text@ == spec_render(*rep),
            Err(e) => rep.conditions@.len() == 0 && e == WeatherError::EmptyConditions,
        },
{
    if rep.conditions.len() == 0 {
        return Err(WeatherError::EmptyConditions);
    }
    let mut out = String::from_str("Weather in ");
    out.append(rep.location_name.as_str());
    out.append(" : ");
    out.append(rep.conditions[0].description.as_str());
    out.append(" ");
    out.append(icon_text(bucket(rep.metrics.temperature_tenths)));
    out.append("\n> Temperature : ");
    let t = format_tenths(rep.metrics.temperature_tenths);
    out.append(t.as_str());
    out.append(" C\n> Pressure : ");
    let p = format_tenths(rep.metrics.pressure_tenths);
    out.append(p.as_str());
    out.append(" hPa\n> Humidity : ");
    let h = format_tenths(rep.metrics.humidity_tenths);
    out.append(h.as_str());
    out.append(" %\n> Wind Speed : ");
    let w = format_tenths(rep.wind.speed_tenths);
    out.append(w.as_str());
    out.append(" m/s");
    proof {
        assert(out@ =~= spec_render(*rep));
    }
    Ok(out)
}

} // verus!
