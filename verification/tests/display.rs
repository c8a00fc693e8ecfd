use forecast_crab::parse::WeatherData;
use forecast_crab::pipeline::PipelineOutcome;
use forecast_crab::render::{
    format_humidity, format_temperature, format_wind, icon_for, render, IconKind, RenderState,
};

#[test]
fn rain_scenario_renders_all_fields() {
    let body =
        br#"{"weather":[{"main":"Rain"}],"main":{"temp":280.0,"humidity":77},"wind":{"speed":3.5}}"#
            .to_vec();
    let w = WeatherData::parse_weather(&body).expect("documented shape must decode");
    let r = render(&PipelineOutcome::Success(w));
    match r {
        RenderState::Conditions(f) => {
            assert_eq!(f.icon, IconKind::Rain);
            assert_eq!(f.category, "Rain");
            assert_eq!(f.temperature, "6.85\u{b0}C");
            assert_eq!(f.humidity, "77%");
            assert_eq!(f.wind, "3.50Km/h");
        },
        RenderState::NotFound => panic!("a success outcome must render its fields"),
    }
}

#[test]
fn temperature_is_kelvin_minus_273_15_to_two_decimals() {
    assert_eq!(format_temperature(28000), "6.85\u{b0}C");
    assert_eq!(format_temperature(27315), "0.00\u{b0}C");
    assert_eq!(format_temperature(27300), "-0.15\u{b0}C");
    assert_eq!(format_temperature(0), "-273.15\u{b0}C");
    assert_eq!(format_temperature(30000), "26.85\u{b0}C");
}

#[test]
fn humidity_and_wind_formats() {
    assert_eq!(format_humidity(0), "0%");
    assert_eq!(format_humidity(77), "77%");
    assert_eq!(format_humidity(100), "100%");
    assert_eq!(format_wind(0), "0.00Km/h");
    assert_eq!(format_wind(350), "3.50Km/h");
    assert_eq!(format_wind(1005), "10.05Km/h");
}

#[test]
fn known_categories_select_their_icons() {
    assert_eq!(icon_for("Clear"), IconKind::Clear);
    assert_eq!(icon_for("Clouds"), IconKind::Clouds);
    assert_eq!(icon_for("Rain"), IconKind::Rain);
    assert_eq!(icon_for("Snow"), IconKind::Snow);
    assert_eq!(icon_for("Thunderstorm"), IconKind::Thunderstorm);
}

#[test]
fn unknown_category_selects_default_icon_repeatably() {
    assert_eq!(icon_for("Mist"), IconKind::NotFound);
    assert_eq!(icon_for("Mist"), IconKind::NotFound);
    assert_eq!(icon_for("Drizzle"), IconKind::NotFound);
    assert_eq!(icon_for("clear"), IconKind::NotFound);
    assert_eq!(icon_for(""), IconKind::NotFound);
}

#[test]
fn failure_renders_not_found_whatever_the_cause() {
    let r = render(&PipelineOutcome::Failure("transport error: timeout".to_string()));
    assert!(matches!(r, RenderState::NotFound));
    let r = render(&PipelineOutcome::Failure("decode error".to_string()));
    assert!(matches!(r, RenderState::NotFound));
}

#[test]
fn weather_body_with_extra_members_decodes() {
    let body = br#"{"coord":{"lon":13.4,"lat":52.5},"weather":[{"id":500,"main":"Rain","description":"light rain","icon":"10d"}],"base":"stations","main":{"temp":285.27,"feels_like":284.8,"temp_min":284.0,"temp_max":286.4,"pressure":1012,"humidity":81},"visibility":10000,"wind":{"speed":4.12,"deg":240},"clouds":{"all":75},"dt":1700000000,"sys":{"type":2,"id":2011538,"country":"DE","sunrise":1699940000,"sunset":1699973000},"timezone":3600,"id":2950159,"name":"Berlin","cod":200}"#.to_vec();
    let w = WeatherData::parse_weather(&body).expect("a real upstream body must decode");
    assert_eq!(w.weather[0].main, "Rain");
    assert_eq!(w.main.temp, 28527);
    assert_eq!(w.main.humidity, 81);
    assert_eq!(w.wind.speed, 412);
}

#[test]
fn weather_number_with_many_fraction_digits_rounds_half_up() {
    let body =
        br#"{"weather":[{"main":"Snow"}],"main":{"temp":280.456,"humidity":50},"wind":{"speed":3.454}}"#
            .to_vec();
    let w = WeatherData::parse_weather(&body).expect("fractions beyond hundredths must round");
    assert_eq!(w.main.temp, 28046);
    assert_eq!(w.wind.speed, 345);
}

#[test]
fn weather_malformed_bodies_are_rejected() {
    // no condition entry at all
    let empty =
        br#"{"weather":[],"main":{"temp":280.0,"humidity":77},"wind":{"speed":3.5}}"#.to_vec();
    assert!(WeatherData::parse_weather(&empty).is_err());
    // a missing required member
    let no_wind = br#"{"weather":[{"main":"Rain"}],"main":{"temp":280.0,"humidity":77}}"#.to_vec();
    assert!(WeatherData::parse_weather(&no_wind).is_err());
    // a duplicate member
    let dup = br#"{"weather":[{"main":"Rain"}],"weather":[{"main":"Snow"}],"main":{"temp":280.0,"humidity":77},"wind":{"speed":3.5}}"#.to_vec();
    assert!(WeatherData::parse_weather(&dup).is_err());
    // a fractional humidity
    let frac = br#"{"weather":[{"main":"Rain"}],"main":{"temp":280.0,"humidity":77.5},"wind":{"speed":3.5}}"#.to_vec();
    assert!(WeatherData::parse_weather(&frac).is_err());
    // an exponent, which the scanner does not accept
    let exp = br#"{"weather":[{"main":"Rain"}],"main":{"temp":2.8e2,"humidity":77},"wind":{"speed":3.5}}"#.to_vec();
    assert!(WeatherData::parse_weather(&exp).is_err());
    // a leading zero, which JSON forbids
    let zero = br#"{"weather":[{"main":"Rain"}],"main":{"temp":0280.0,"humidity":77},"wind":{"speed":3.5}}"#.to_vec();
    assert!(WeatherData::parse_weather(&zero).is_err());
    // trailing input after the object
    let trail = br#"{"weather":[{"main":"Rain"}],"main":{"temp":280.0,"humidity":77},"wind":{"speed":3.5}} extra"#.to_vec();
    assert!(WeatherData::parse_weather(&trail).is_err());
}

#[test]
fn weather_two_condition_entries_keep_body_order() {
    let body = br#"{"weather":[{"main":"Rain"},{"main":"Snow"}],"main":{"temp":280.0,"humidity":77},"wind":{"speed":3.5}}"#.to_vec();
    let w = WeatherData::parse_weather(&body).expect("two entries must decode");
    assert_eq!(w.weather.len(), 2);
    assert_eq!(w.weather[0].main, "Rain");
    assert_eq!(w.weather[1].main, "Snow");
}

#[test]
fn weather_whitespace_between_tokens_is_accepted() {
    let body = b"  { \"weather\" : [ { \"main\" : \"Clear\" } ] , \"main\" : { \"temp\" : 300 , \"humidity\" : 10 } , \"wind\" : { \"speed\" : 0.5 } }  ".to_vec();
    let w = WeatherData::parse_weather(&body).expect("whitespace must not matter");
    assert_eq!(w.weather[0].main, "Clear");
    assert_eq!(w.main.temp, 30000);
    assert_eq!(w.main.humidity, 10);
    assert_eq!(w.wind.speed, 50);
}
