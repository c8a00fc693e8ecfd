//! The presentation adapter: a pure mapping from a resolution outcome onto
//! the fixed display fields, with an icon selected by exact match against
//! the known category set, temperature converted to Celsius with two
//! decimals, humidity as a whole percentage, and wind speed with two
//! decimals. Any failure collapses to the generic not-found state.

use vstd::prelude::*;
use vstd::string::StringExecFns;
use crate::num::{spec_digit, spec_dec, u64_to_string, two_digit_string};
use crate::parse::{SpecWeatherData, WeatherData, spec_parse_weather};
use crate::pipeline::PipelineOutcome;

verus! {

/// The icon a weather category selects.
#[derive(Clone, Copy, PartialEq, Eq, Structural, Debug)]
pub enum IconKind {
    Clear,
    Clouds,
    Rain,
    Snow,
    Thunderstorm,
    NotFound,
}

/// Exact match against the fixed category set; every other category —
/// including valid upstream ones outside the set — gets the not-found icon.
pub open spec fn spec_icon_for(c: Seq<char>) -> IconKind {
    if c == "Clear"@ {
        IconKind::Clear
    } else if c == "Clouds"@ {
        IconKind::Clouds
    } else if c == "Rain"@ {
        IconKind::Rain
    } else if c == "Snow"@ {
        IconKind::Snow
    } else if c == "Thunderstorm"@ {
        IconKind::Thunderstorm
    } else {
        IconKind::NotFound
    }
}

fn str_eq(a: &str, b: &str) -> (r: bool)
    ensures
        r == (a@ == b@),
{
    let sa = String::from_str(a);
    let sb = String::from_str(b);
    sa == sb
}

/// Selects the icon for a category.
pub fn icon_for(category: &str) -> (r: IconKind)
    ensures
        r == spec_icon_for(category@),
{
    if str_eq(category, "Clear") {
        IconKind::Clear
    } else if str_eq(category, "Clouds") {
        IconKind::Clouds
    } else if str_eq(category, "Rain") {
        IconKind::Rain
    } else if str_eq(category, "Snow") {
        IconKind::Snow
    } else if str_eq(category, "Thunderstorm") {
        IconKind::Thunderstorm
    } else {
        IconKind::NotFound
    }
}

/// Any category outside the fixed set selects the not-found icon; the
/// selection depends on the category alone, so repeated mappings of the
/// same category agree.
pub proof fn lemma_unknown_category_not_found(c: Seq<char>)
    requires
        c != "Clear"@,
        c != "Clouds"@,
        c != "Rain"@,
        c != "Snow"@,
        c != "Thunderstorm"@,
    ensures
        spec_icon_for(c) == IconKind::NotFound,
{
}

/// `n` hundredths rendered without sign: whole part, point, two digits.
pub open spec fn spec_centi_abs(n: nat) -> Seq<char> {
    spec_dec(n / 100) + seq!['.'] + seq![spec_digit((n / 10) % 10), spec_digit(n % 10)]
}

/// `c` hundredths rendered with two decimals: `685` is `6.85`, `-50` is
/// `-0.50`.
pub open spec fn spec_centi_chars(c: int) -> Seq<char> {
    if c < 0 {
        seq!['-'] + spec_centi_abs((-c) as nat)
    } else {
        spec_centi_abs(c as nat)
    }
}

/// Renders a count of hundredths with two decimals.
pub fn centi_string(c: i64) -> (s: String)
    requires
        -2000000000000000 <= c <= 2000000000000000,
    ensures
        s@ == spec_centi_chars(c as int),
{
    let neg = c < 0;
    let a: u64 = if neg {
        (-c) as u64
    } else {
        c as u64
    };
    let mut s = if neg {
        String::from_str("-")
    } else {
        String::new()
    };
    let w = u64_to_string(a / 100);
    s.append(w.as_str());
    s.append(".");
    let f = two_digit_string(a % 100);
    s.append(f.as_str());
    proof {
        reveal_strlit("-");
        assert("-"@ =~= seq!['-']);
        reveal_strlit(".");
        assert("."@ =~= seq!['.']);
        assert(((a as int) % 100) / 10 == ((a as int) / 10) % 10) by (nonlinear_arith);
        assert(((a as int) % 100) % 10 == (a as int) % 10) by (nonlinear_arith);
        assert(s@ =~= spec_centi_chars(c as int));
    }
    s
}

/// Celsius with two decimals and its unit, from hundredths of a kelvin:
/// the display subtracts 273.15 from the upstream Kelvin value.
pub open spec fn spec_temperature_chars(temp: int) -> Seq<char> {
    spec_centi_chars(temp - 27315) + "°C"@
}

pub fn format_temperature(temp: i64) -> (s: String)
    requires
        -1000000000000000 <= temp <= 1000000000000000,
    ensures
        s@ == spec_temperature_chars(temp as int),
{
    let mut s = centi_string(temp - 27315);
    s.append("°C");
    s
}

/// Humidity as a whole percentage.
pub open spec fn spec_humidity_chars(h: nat) -> Seq<char> {
    spec_dec(h) + "%"@
}

pub fn format_humidity(h: u32) -> (s: String)
    ensures
        s@ == spec_humidity_chars(h as nat),
{
    let mut s = u64_to_string(h as u64);
    s.append("%");
    s
}

/// Wind speed with two decimals and its unit, from hundredths.
pub open spec fn spec_wind_chars(speed: int) -> Seq<char> {
    spec_centi_chars(speed) + "Km/h"@
}

pub fn format_wind(speed: i64) -> (s: String)
    requires
        -1000000000000000 <= speed <= 1000000000000000,
    ensures
        s@ == spec_wind_chars(speed as int),
{
    let mut s = centi_string(speed);
    s.append("Km/h");
    s
}

/// For every weather body that decodes — such a body always carries at
/// least one condition entry — the adapter's temperature output is the
/// body's Kelvin hundredths less 273.15, rendered to two decimals with the
/// unit: subtracting the exact constant 273.15 commutes with reading the
/// body to hundredths.
pub proof fn lemma_temperature_from_body(s: Seq<u8>, w: WeatherData, m: SpecWeatherData)
    requires
        spec_parse_weather(s) == Some(m),
        w.matches_spec(m),
    ensures
        m.conditions.len() >= 1,
        spec_temperature_chars(w.main.temp as int) == spec_centi_chars(m.temp - 27315) + "°C"@,
{
}

/// The fixed fields of one render.
#[derive(Debug)]
pub struct DisplayFields {
    pub icon: IconKind,
    pub category: String,
    pub temperature: String,
    pub humidity: String,
    pub wind: String,
}

/// What the presentation shows: the condition fields, or the generic
/// not-found state that any failure collapses to, its cause discarded.
#[derive(Debug)]
pub enum RenderState {
    Conditions(DisplayFields),
    NotFound,
}

/// Maps an outcome onto the display: the first condition entry selects the
/// icon and the category label, the numbers are formatted as the display
/// shows them, and a failure renders the not-found state whatever its cause.
pub fn render(outcome: &PipelineOutcome) -> (r: RenderState)
    requires
        outcome matches PipelineOutcome::Success(w) ==> w.wf(),
    ensures
        outcome matches PipelineOutcome::Success(w) ==> (r matches RenderState::Conditions(f)
            && f.icon == spec_icon_for(w.weather@[0].main@)
            && f.category@ == w.weather@[0].main@
            && f.temperature@ == spec_temperature_chars(w.main.temp as int)
            && f.humidity@ == spec_humidity_chars(w.main.humidity as nat)
            && f.wind@ == spec_wind_chars(w.wind.speed as int)),
        outcome is Failure ==> r is NotFound,
{
    match outcome {
        PipelineOutcome::Success(w) => {
            let cat = w.weather[0].main.clone();
            let icon = icon_for(cat.as_str());
            RenderState::Conditions(
                DisplayFields {
                    icon,
                    category: cat,
                    temperature: format_temperature(w.main.temp),
                    humidity: format_humidity(w.main.humidity),
                    wind: format_wind(w.wind.speed),
                },
            )
        },
        PipelineOutcome::Failure(_) => RenderState::NotFound,
    }
}

} // verus!
