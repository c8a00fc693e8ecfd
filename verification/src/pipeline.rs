//! The resolution pipeline: public IP discovery, geolocation, weather fetch.
//!
//! The network itself stays outside the library. Each stage is a decision
//! function from the raw response (or transport failure) to the next state,
//! so the whole chain is pinned: a user-supplied place skips IP and
//! geolocation; an IP or geolocation failure falls back to a placeholder
//! place and the pipeline continues; a weather failure is the attempt's
//! final outcome. A session object carries the single-flight guard that the
//! interactive presentation needs across redraws.

use vstd::prelude::*;
use vstd::string::StringExecFns;
use crate::ipv4::{Ipv4Address, parse_ipv4, is_ipv4_literal, spec_ipv4_bytes};
use crate::num::{spec_dec, u64_to_string};
use crate::parse::{WeatherData, IpAddr, spec_parse_weather, spec_parse_geolocation};
use vstd::utf8::{valid_utf8, decode_utf8};

verus! {

/// Why a resolution stage failed.
#[derive(Debug, Clone)]
pub enum ResolutionError {
    /// The request itself failed; carries the transport's own message.
    Transport(String),
    /// The IP-echo body is not an IPv4 literal.
    Parse,
    /// A JSON body is not in the endpoint's documented shape.
    Decode,
}

/// The user-facing message of an error.
pub open spec fn spec_error_message(e: ResolutionError) -> Seq<char> {
    match e {
        ResolutionError::Transport(m) => "transport error: "@ + m@,
        ResolutionError::Parse => "parse error"@,
        ResolutionError::Decode => "decode error"@,
    }
}

impl ResolutionError {
    /// Renders the error for display or logging.
    pub fn message(&self) -> (r: String)
        ensures
            r@ == spec_error_message(*self),
    {
        match self {
            ResolutionError::Transport(m) => {
                let mut s = String::from_str("transport error: ");
                s.append(m.as_str());
                s
            },
            ResolutionError::Parse => String::from_str("parse error"),
            ResolutionError::Decode => String::from_str("decode error"),
        }
    }
}

/// The outcome of one finished resolution attempt.
#[derive(Debug)]
pub enum PipelineOutcome {
    Success(WeatherData),
    Failure(String),
}

/// Where a resolution attempt stands; each `Awaiting` state names the one
/// request the caller must perform next.
#[derive(Debug)]
pub enum PipelineState {
    NotStarted,
    AwaitingIp,
    AwaitingGeo(Ipv4Address),
    AwaitingWeather(String),
    Resolved(PipelineOutcome),
}

/// The IP-echo endpoint.
pub open spec fn spec_ip_echo_url() -> Seq<char> {
    "https://api.ipify.org?format=text"@
}

pub fn ip_echo_url() -> (r: String)
    ensures
        r@ == spec_ip_echo_url(),
{
    String::from_str("https://api.ipify.org?format=text")
}

/// An address rendered in its dotted decimal form.
pub open spec fn spec_ipv4_chars(ip: Ipv4Address) -> Seq<char> {
    spec_dec(ip.a as nat) + seq!['.'] + spec_dec(ip.b as nat) + seq!['.'] + spec_dec(ip.c as nat)
        + seq!['.'] + spec_dec(ip.d as nat)
}

pub fn ipv4_string(ip: &Ipv4Address) -> (r: String)
    ensures
        r@ == spec_ipv4_chars(*ip),
{
    let mut s = u64_to_string(ip.a as u64);
    s.append(".");
    let sb = u64_to_string(ip.b as u64);
    s.append(sb.as_str());
    s.append(".");
    let sc = u64_to_string(ip.c as u64);
    s.append(sc.as_str());
    s.append(".");
    let sd = u64_to_string(ip.d as u64);
    s.append(sd.as_str());
    proof {
        reveal_strlit(".");
        assert("."@ =~= seq!['.']);
        assert(s@ =~= spec_ipv4_chars(*ip));
    }
    s
}

/// The geolocation query for an address, with the token as its credential.
pub open spec fn spec_geo_url(ip: Ipv4Address, token: Seq<char>) -> Seq<char> {
    "https://ipinfo.io/"@ + spec_ipv4_chars(ip) + "?token="@ + token
}

pub fn geo_url(ip: &Ipv4Address, token: &str) -> (r: String)
    ensures
        r@ == spec_geo_url(*ip, token@),
{
    let mut s = String::from_str("https://ipinfo.io/");
    let sip = ipv4_string(ip);
    s.append(sip.as_str());
    s.append("?token=");
    s.append(token);
    proof {
        assert(s@ =~= spec_geo_url(*ip, token@));
    }
    s
}

/// The weather query for a place, with the token as its credential.
pub open spec fn spec_weather_url(place: Seq<char>, token: Seq<char>) -> Seq<char> {
    "https://api.openweathermap.org/data/2.5/weather?q="@ + place + "&appid="@ + token
}

pub fn weather_url(place: &str, token: &str) -> (r: String)
    ensures
        r@ == spec_weather_url(place@, token@),
{
    let mut s = String::from_str("https://api.openweathermap.org/data/2.5/weather?q=");
    s.append(place);
    s.append("&appid=");
    s.append(token);
    proof {
        assert(s@ =~= spec_weather_url(place@, token@));
    }
    s
}

/// The place used when geolocation fails.
pub open spec fn spec_fallback_place() -> Seq<char> {
    "Unknown region"@
}

pub fn fallback_place() -> (r: String)
    ensures
        r@ == spec_fallback_place(),
{
    String::from_str("Unknown region")
}

/// Reads the IP-echo response: `Ok` with the octets exactly when the body is
/// a canonical IPv4 literal, `Parse` when it is any other body, `Transport`
/// with the carried message when the request failed.
pub fn resolve_public_ip(resp: &Result<Vec<u8>, String>) -> (r: Result<Ipv4Address, ResolutionError>)
    ensures
        resp matches Ok(body) ==> (is_ipv4_literal(body@) ==> (r matches Ok(ip)
            && body@ == spec_ipv4_bytes(ip.a, ip.b, ip.c, ip.d))),
        resp matches Ok(body) ==> (!is_ipv4_literal(body@) ==> (r matches Err(e) && e is Parse)),
        resp matches Err(msg) ==> (r matches Err(e)
            && e matches ResolutionError::Transport(m) && m@ == msg@),
{
    match resp {
        Ok(body) => match parse_ipv4(body) {
            Some(ip) => Ok(ip),
            None => Err(ResolutionError::Parse),
        },
        Err(msg) => Err(ResolutionError::Transport(msg.clone())),
    }
}

/// Reads the geolocation response: `Ok` with the city exactly when the body
/// decodes, `Decode` when it does not, `Transport` when the request failed.
pub fn resolve_geo(resp: &Result<Vec<u8>, String>) -> (r: Result<IpAddr, ResolutionError>)
    ensures
        resp matches Ok(body) ==> match r {
            Ok(g) => spec_parse_geolocation(body@) matches Some(c) && valid_utf8(c)
                && g.city@ == decode_utf8(c),
            Err(e) => e is Decode && (spec_parse_geolocation(body@) is None
                || (spec_parse_geolocation(body@) matches Some(c) && !valid_utf8(c))),
        },
        resp matches Err(msg) ==> (r matches Err(e)
            && e matches ResolutionError::Transport(m) && m@ == msg@),
{
    match resp {
        Ok(body) => match IpAddr::parse_geolocation(body) {
            Ok(g) => Ok(g),
            Err(_) => Err(ResolutionError::Decode),
        },
        Err(msg) => Err(ResolutionError::Transport(msg.clone())),
    }
}

/// Reads the weather response: `Ok` with the record exactly when the body
/// decodes, `Decode` when it does not, `Transport` when the request failed.
pub fn resolve_weather(resp: &Result<Vec<u8>, String>) -> (r: Result<WeatherData, ResolutionError>)
    ensures
        resp matches Ok(body) ==> match r {
            Ok(w) => w.wf() && (spec_parse_weather(body@) matches Some(m) && w.matches_spec(m)),
            Err(e) => e is Decode && (spec_parse_weather(body@) is None
                || (spec_parse_weather(body@) matches Some(m)
                    && exists|k: int| 0 <= k < m.conditions.len()
                        && !valid_utf8(#[trigger] m.conditions[k]))),
        },
        resp matches Err(msg) ==> (r matches Err(e)
            && e matches ResolutionError::Transport(m) && m@ == msg@),
{
    match resp {
        Ok(body) => match WeatherData::parse_weather(body) {
            Ok(w) => Ok(w),
            Err(_) => Err(ResolutionError::Decode),
        },
        Err(msg) => Err(ResolutionError::Transport(msg.clone())),
    }
}

/// Starts an attempt: a non-empty user-supplied place goes straight to the
/// weather stage; otherwise the caller's IP is discovered first.
pub fn start_resolution(user_place: &String) -> (s: PipelineState)
    ensures
        user_place@.len() > 0 ==> (s matches PipelineState::AwaitingWeather(p)
            && p@ == user_place@),
        user_place@.len() == 0 ==> s is AwaitingIp,
{
    if !user_place.as_str().is_empty() {
        PipelineState::AwaitingWeather(user_place.clone())
    } else {
        PipelineState::AwaitingIp
    }
}

/// Takes the IP-echo response. A valid body moves to geolocation with
/// exactly the address the body spells; any failure falls back to the
/// caller-chosen default place and the pipeline continues.
pub fn on_ip_response(resp: &Result<Vec<u8>, String>, default_place: String) -> (s: PipelineState)
    ensures
        resp matches Ok(body) ==> (is_ipv4_literal(body@) ==> (s matches
            PipelineState::AwaitingGeo(ip)
            && body@ == spec_ipv4_bytes(ip.a, ip.b, ip.c, ip.d))),
        resp matches Ok(body) ==> (!is_ipv4_literal(body@) ==> (s matches
            PipelineState::AwaitingWeather(p) && p@ == default_place@)),
        resp is Err ==> (s matches PipelineState::AwaitingWeather(p) && p@ == default_place@),
{
    match resolve_public_ip(resp) {
        Ok(ip) => PipelineState::AwaitingGeo(ip),
        Err(_) => PipelineState::AwaitingWeather(default_place),
    }
}

/// Takes the geolocation response. A decoded record contributes its city;
/// any failure substitutes the fallback placeholder, and the pipeline never
/// aborts at this stage.
pub fn on_geo_response(resp: &Result<Vec<u8>, String>) -> (s: PipelineState)
    ensures
        s matches PipelineState::AwaitingWeather(p),
        resp matches Ok(body) ==> (spec_parse_geolocation(body@) matches Some(c)
            ==> (valid_utf8(c)
                ==> (s matches PipelineState::AwaitingWeather(p) && p@ == decode_utf8(c)))),
        (match resp {
            Ok(body) => !(spec_parse_geolocation(body@) matches Some(c) && valid_utf8(c)),
            Err(_) => true,
        }) ==> (s matches PipelineState::AwaitingWeather(p) && p@ == spec_fallback_place()),
{
    match resolve_geo(resp) {
        Ok(g) => PipelineState::AwaitingWeather(g.city),
        Err(_) => PipelineState::AwaitingWeather(fallback_place()),
    }
}

/// Takes the weather response: the attempt's final outcome. A decoded record
/// is the success; any failure is the failure outcome with the error's
/// message.
pub fn on_weather_response(resp: &Result<Vec<u8>, String>) -> (s: PipelineState)
    ensures
        s matches PipelineState::Resolved(o),
        resp matches Ok(body) ==> (spec_parse_weather(body@) matches Some(m)
            ==> ((forall|k: int| 0 <= k < m.conditions.len()
                    ==> valid_utf8(#[trigger] m.conditions[k]))
                ==> (s matches PipelineState::Resolved(o)
                    && o matches PipelineOutcome::Success(w)
                    && w.wf() && w.matches_spec(m)))),
        (match resp {
            Ok(body) => spec_parse_weather(body@) is None,
            Err(_) => true,
        }) ==> (s matches PipelineState::Resolved(o) && o is Failure),
{
    match resolve_weather(resp) {
        Ok(w) => PipelineState::Resolved(PipelineOutcome::Success(w)),
        Err(e) => {
            let msg = e.message();
            PipelineState::Resolved(PipelineOutcome::Failure(msg))
        },
    }
}

/// One interactive session: the single-flight flag and the last attempt's
/// state, held across redraws.
#[derive(Debug)]
pub struct Session {
    pub paused: bool,
    pub state: PipelineState,
}

impl Session {
    /// A fresh session: nothing in flight, nothing resolved.
    pub fn new() -> (s: Session)
        ensures
            !s.paused,
            s.state is NotStarted,
    {
        Session { paused: false, state: PipelineState::NotStarted }
    }

    /// The re-entrancy guard. A request while one is already in flight (or
    /// its output still displayed) changes nothing and starts nothing; the
    /// cached state stays as it is. Otherwise the flag is set and the
    /// pipeline starts for the given place.
    pub fn request(&mut self, user_place: &String) -> (started: bool)
        ensures
            old(self).paused ==> !started && *final(self) == *old(self),
            !old(self).paused ==> started && final(self).paused && (user_place@.len() > 0
                ==> (final(self).state matches PipelineState::AwaitingWeather(p)
                    && p@ == user_place@)) && (user_place@.len() == 0
                ==> final(self).state is AwaitingIp),
    {
        if self.paused {
            false
        } else {
            self.paused = true;
            self.state = start_resolution(user_place);
            true
        }
    }

    /// Stores an attempt's next state without touching the flag.
    pub fn advance(&mut self, state: PipelineState)
        ensures
            final(self).paused == old(self).paused,
            final(self).state == state,
    {
        self.state = state;
    }

    /// Lets the next request through: the user asked for a new resolution.
    pub fn unpause(&mut self)
        ensures
            !final(self).paused,
            final(self).state == old(self).state,
    {
        self.paused = false;
    }
}

} // verus!
