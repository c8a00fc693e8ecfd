use forecast_crab::ipv4::{parse_ipv4, Ipv4Address};
use forecast_crab::parse::IpAddr;
use forecast_crab::pipeline::{
    fallback_place, geo_url, ip_echo_url, on_geo_response, on_ip_response, on_weather_response,
    resolve_geo, resolve_public_ip, resolve_weather, start_resolution, weather_url,
    PipelineOutcome, PipelineState, ResolutionError, Session,
};

#[test]
fn ipv4_valid_literal_returns_exact_address() {
    let r = parse_ipv4(&b"203.0.113.7".to_vec());
    match r {
        Some(Ipv4Address { a, b, c, d }) => {
            assert_eq!((a, b, c, d), (203, 0, 113, 7));
        },
        None => panic!("a valid literal must parse"),
    }
    let r = parse_ipv4(&b"0.0.0.0".to_vec());
    assert!(matches!(r, Some(Ipv4Address { a: 0, b: 0, c: 0, d: 0 })));
    let r = parse_ipv4(&b"255.255.255.255".to_vec());
    assert!(matches!(r, Some(Ipv4Address { a: 255, b: 255, c: 255, d: 255 })));
}

#[test]
fn ipv4_invalid_bodies_are_rejected() {
    assert!(parse_ipv4(&b"".to_vec()).is_none());
    assert!(parse_ipv4(&b"256.1.1.1".to_vec()).is_none());
    assert!(parse_ipv4(&b"1.2.3".to_vec()).is_none());
    assert!(parse_ipv4(&b"1.2.3.4.5".to_vec()).is_none());
    assert!(parse_ipv4(&b"01.2.3.4".to_vec()).is_none());
    assert!(parse_ipv4(&b"1.2.3.4 ".to_vec()).is_none());
    assert!(parse_ipv4(&b"2001:db8::1".to_vec()).is_none());
    assert!(parse_ipv4(&b"not an address".to_vec()).is_none());
    assert!(parse_ipv4(&b"1234.1.1.1".to_vec()).is_none());
}

#[test]
fn ip_stage_parse_failure_gives_parse_error() {
    let r = resolve_public_ip(&Ok(b"<html>error page</html>".to_vec()));
    assert!(matches!(r, Err(ResolutionError::Parse)));
}

#[test]
fn ip_stage_transport_failure_carries_message() {
    let r = resolve_public_ip(&Err("connection refused".to_string()));
    match r {
        Err(ResolutionError::Transport(m)) => assert_eq!(m, "connection refused"),
        _ => panic!("a transport failure must surface as Transport"),
    }
    let e = ResolutionError::Transport("connection refused".to_string());
    assert_eq!(e.message(), "transport error: connection refused");
}

#[test]
fn geo_body_decodes_city_among_unknown_members() {
    let body = br#"{"ip":"203.0.113.7","hostname":"example.net","city":"Berlin","region":"Berlin","country":"DE","loc":"52.5,13.4"}"#.to_vec();
    let g = IpAddr::parse_geolocation(&body).expect("documented shape must decode");
    assert_eq!(g.city, "Berlin");
}

#[test]
fn geo_body_decodes_multibyte_city() {
    let body = "{\"city\":\"M\u{fc}nchen\"}".as_bytes().to_vec();
    let g = IpAddr::parse_geolocation(&body).expect("UTF-8 city must decode");
    assert_eq!(g.city, "M\u{fc}nchen");
}

#[test]
fn geo_body_without_city_is_decode_error() {
    assert!(IpAddr::parse_geolocation(&br#"{"region":"Berlin"}"#.to_vec()).is_err());
    assert!(IpAddr::parse_geolocation(&b"[]".to_vec()).is_err());
    assert!(IpAddr::parse_geolocation(&b"".to_vec()).is_err());
    // invalid UTF-8 in the city is a decode error, not a garbled string
    let mut body = b"{\"city\":\"".to_vec();
    body.push(0xff);
    body.extend_from_slice(b"\"}");
    assert!(IpAddr::parse_geolocation(&body).is_err());
}

#[test]
fn geo_failure_falls_back_to_placeholder_place() {
    let s = on_geo_response(&Err("timeout".to_string()));
    match s {
        PipelineState::AwaitingWeather(p) => assert_eq!(p, "Unknown region"),
        _ => panic!("geolocation failure must continue with the placeholder"),
    }
    assert_eq!(fallback_place(), "Unknown region");
}

#[test]
fn geo_failure_then_weather_failure_is_failure_outcome() {
    // the weather lookup for the placeholder place fails upstream; the
    // pipeline's final outcome is Failure
    let s = on_geo_response(&Err("timeout".to_string()));
    let place = match s {
        PipelineState::AwaitingWeather(p) => p,
        _ => panic!("geolocation failure must continue with the placeholder"),
    };
    assert_eq!(place, "Unknown region");
    let not_found = br#"{"cod":"404","message":"city not found"}"#.to_vec();
    let s2 = on_weather_response(&Ok(not_found));
    assert!(matches!(
        s2,
        PipelineState::Resolved(PipelineOutcome::Failure(_))
    ));
}

#[test]
fn user_place_skips_ip_and_geo_stages() {
    let s = start_resolution(&"Paris".to_string());
    match s {
        PipelineState::AwaitingWeather(p) => assert_eq!(p, "Paris"),
        _ => panic!("a user-supplied place must go straight to the weather stage"),
    }
    let url = weather_url("Paris", "KEY");
    assert_eq!(
        url,
        "https://api.openweathermap.org/data/2.5/weather?q=Paris&appid=KEY"
    );
    assert!(url.contains("q=Paris"));
}

#[test]
fn empty_place_starts_ip_discovery() {
    let s = start_resolution(&String::new());
    assert!(matches!(s, PipelineState::AwaitingIp));
    assert_eq!(ip_echo_url(), "https://api.ipify.org?format=text");
}

#[test]
fn ip_response_routes_to_geolocation() {
    let s = on_ip_response(&Ok(b"198.51.100.23".to_vec()), String::new());
    match s {
        PipelineState::AwaitingGeo(ip) => {
            assert_eq!((ip.a, ip.b, ip.c, ip.d), (198, 51, 100, 23));
            assert_eq!(
                geo_url(&ip, "TOKEN"),
                "https://ipinfo.io/198.51.100.23?token=TOKEN"
            );
        },
        _ => panic!("a valid IP body must move to geolocation"),
    }
}

#[test]
fn ip_failure_falls_back_to_default_place() {
    let s = on_ip_response(&Err("dns failure".to_string()), String::new());
    match s {
        PipelineState::AwaitingWeather(p) => assert_eq!(p, ""),
        _ => panic!("an IP failure must continue with the default place"),
    }
    let s = on_ip_response(&Ok(b"garbage".to_vec()), String::new());
    assert!(matches!(s, PipelineState::AwaitingWeather(_)));
}

#[test]
fn second_request_while_in_flight_changes_nothing() {
    let mut session = Session::new();
    assert!(!session.paused);
    let started = session.request(&"Paris".to_string());
    assert!(started);
    assert!(session.paused);
    let place_before = match &session.state {
        PipelineState::AwaitingWeather(p) => p.clone(),
        _ => panic!("the first request must start the pipeline"),
    };
    // a second request while the flag is set: no new attempt, cached state kept
    let started_again = session.request(&"Lyon".to_string());
    assert!(!started_again);
    assert!(session.paused);
    match &session.state {
        PipelineState::AwaitingWeather(p) => assert_eq!(*p, place_before),
        _ => panic!("the cached state must stay unchanged"),
    }
    // after the user asks anew, a request goes through again
    session.unpause();
    let started_fresh = session.request(&"Lyon".to_string());
    assert!(started_fresh);
    match &session.state {
        PipelineState::AwaitingWeather(p) => assert_eq!(p, "Lyon"),
        _ => panic!("the new request must start the pipeline"),
    }
}

#[test]
fn weather_response_success_holds_record() {
    let body =
        br#"{"weather":[{"main":"Rain"}],"main":{"temp":280.0,"humidity":77},"wind":{"speed":3.5}}"#
            .to_vec();
    let s = on_weather_response(&Ok(body));
    match s {
        PipelineState::Resolved(PipelineOutcome::Success(w)) => {
            assert_eq!(w.weather[0].main, "Rain");
            assert_eq!(w.main.temp, 28000);
            assert_eq!(w.main.humidity, 77);
            assert_eq!(w.wind.speed, 350);
        },
        _ => panic!("a decodable body must resolve to Success"),
    }
}

#[test]
fn weather_transport_failure_is_failure_outcome() {
    let s = on_weather_response(&Err("tls handshake failed".to_string()));
    match s {
        PipelineState::Resolved(PipelineOutcome::Failure(m)) => {
            assert_eq!(m, "transport error: tls handshake failed");
        },
        _ => panic!("a transport failure must resolve to Failure"),
    }
}

#[test]
fn weather_decode_failure_is_decode_error() {
    let r = resolve_weather(&Ok(b"not json at all".to_vec()));
    assert!(matches!(r, Err(ResolutionError::Decode)));
    let r = resolve_geo(&Ok(b"not json at all".to_vec()));
    assert!(matches!(r, Err(ResolutionError::Decode)));
}
