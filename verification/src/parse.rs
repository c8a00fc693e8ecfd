//! The two typed records that the remote endpoints return, decoded from JSON
//! bodies: current weather conditions, and the city of a geolocated address.
//!
//! Each decoder states its result against a `spec_` twin that reads the body
//! byte by byte, so what a body decodes to is pinned exactly: the member
//! keys, the shapes of the values, duplicate and missing members, trailing
//! input, and the one record invariant (at least one condition entry).
//! Unknown members are skipped, as the upstream bodies carry many.

use vstd::prelude::*;
use vstd::string::StringSliceAdditionalSpecFns;
use vstd::utf8::{valid_utf8, decode_utf8};
use crate::json::{
    spec_skip_ws, spec_scan_string, spec_parse_number, spec_skip_value,
    skip_ws, scan_string, parse_number, skip_value, copy_range,
};

verus! {

/// The body is not in the shape the endpoint documents.
#[derive(Clone, Copy, PartialEq, Eq, Structural, Debug)]
pub struct DecodeError;

/// One weather condition entry: its category name (`Rain`, `Clouds`, ...).
#[derive(Debug, Clone)]
pub struct Weather {
    pub main: String,
}

/// Temperature in hundredths of a kelvin and relative humidity in percent.
#[derive(Debug, Clone, Copy)]
pub struct Main {
    pub temp: i64,
    pub humidity: u32,
}

/// Wind speed in hundredths of the upstream unit.
#[derive(Debug, Clone, Copy)]
pub struct Wind {
    pub speed: i64,
}

/// A current-conditions record.
#[derive(Debug, Clone)]
pub struct WeatherData {
    pub weather: Vec<Weather>,
    pub main: Main,
    pub wind: Wind,
}

/// A geolocation record: the city the address maps to.
#[derive(Debug, Clone)]
pub struct IpAddr {
    pub city: String,
}

/// What a weather body holds, before UTF-8 decoding of the category names.
pub ghost struct SpecWeatherData {
    pub conditions: Seq<Seq<u8>>,
    pub temp: int,
    pub humidity: int,
    pub speed: int,
}

pub open spec fn key_weather() -> Seq<u8> {
    "weather".spec_bytes()
}

pub open spec fn key_main() -> Seq<u8> {
    "main".spec_bytes()
}

pub open spec fn key_wind() -> Seq<u8> {
    "wind".spec_bytes()
}

pub open spec fn key_temp() -> Seq<u8> {
    "temp".spec_bytes()
}

pub open spec fn key_humidity() -> Seq<u8> {
    "humidity".spec_bytes()
}

pub open spec fn key_speed() -> Seq<u8> {
    "speed".spec_bytes()
}

pub open spec fn key_city() -> Seq<u8> {
    "city".spec_bytes()
}

/// Bound on every number a body may carry, in hundredths.
pub open spec fn number_bound() -> int {
    1000000000000000
}

/// Members of one condition entry, from the first key; `acc` is the category
/// seen so far. Yields the category and the position after the `}`.
pub open spec fn spec_cond_members(s: Seq<u8>, i: int, acc: Option<Seq<u8>>) -> Option<(Seq<u8>, int)>
    decreases s.len() - i,
{
    if !(0 <= i < s.len() && s[i] == 34) {
        None
    } else {
        match spec_scan_string(s, i + 1) {
            None => None,
            Some(q) => {
                let key = s.subrange(i + 1, q);
                let j = spec_skip_ws(s, q + 1);
                if !(j < s.len() && s[j] == 58) {
                    None
                } else {
                    let k = spec_skip_ws(s, j + 1);
                    let step: Option<(Option<Seq<u8>>, int)> = if key == key_main() {
                        if acc is Some {
                            None
                        } else if k < s.len() && s[k] == 34 {
                            match spec_scan_string(s, k + 1) {
                                None => None,
                                Some(q2) => Some((Some(s.subrange(k + 1, q2)), q2 + 1)),
                            }
                        } else {
                            None
                        }
                    } else {
                        match spec_skip_value(s, k) {
                            None => None,
                            Some(ve) => Some((acc, ve)),
                        }
                    };
                    match step {
                        None => None,
                        Some((acc2, ve)) => {
                            let m = spec_skip_ws(s, ve);
                            if m < s.len() && s[m] == 44 {
                                let n = spec_skip_ws(s, m + 1);
                                if i < n <= s.len() {
                                    spec_cond_members(s, n, acc2)
                                } else {
                                    None
                                }
                            } else if m < s.len() && s[m] == 125 {
                                match acc2 {
                                    Some(cat) => Some((cat, m + 1)),
                                    None => None,
                                }
                            } else {
                                None
                            }
                        },
                    }
                }
            },
        }
    }
}

/// One condition entry: an object holding a `main` string member.
pub open spec fn spec_cond_entry(s: Seq<u8>, i: int) -> Option<(Seq<u8>, int)> {
    if 0 <= i < s.len() && s[i] == 123 {
        let j = spec_skip_ws(s, i + 1);
        spec_cond_members(s, j, None)
    } else {
        None
    }
}

/// Condition entries from the first one, then the closing `]`; `acc` holds
/// the categories already read, in body order.
pub open spec fn spec_cond_elems(s: Seq<u8>, i: int, acc: Seq<Seq<u8>>) -> Option<(Seq<Seq<u8>>, int)>
    decreases s.len() - i,
{
    match spec_cond_entry(s, i) {
        None => None,
        Some((cat, e)) => {
            let m = spec_skip_ws(s, e);
            if m < s.len() && s[m] == 44 {
                let n = spec_skip_ws(s, m + 1);
                if i < n <= s.len() {
                    spec_cond_elems(s, n, acc.push(cat))
                } else {
                    None
                }
            } else if m < s.len() && s[m] == 93 {
                Some((acc.push(cat), m + 1))
            } else {
                None
            }
        },
    }
}

/// The `weather` array: condition entries in body order, possibly none.
pub open spec fn spec_cond_list(s: Seq<u8>, i: int) -> Option<(Seq<Seq<u8>>, int)> {
    if 0 <= i < s.len() && s[i] == 91 {
        let j = spec_skip_ws(s, i + 1);
        if j < s.len() && s[j] == 93 {
            Some((Seq::empty(), j + 1))
        } else {
            spec_cond_elems(s, j, Seq::empty())
        }
    } else {
        None
    }
}

/// Members of the `main` object: `temp` as a bounded number, `humidity` as a
/// whole number of percent that fits a `u32`.
pub open spec fn spec_main_members(s: Seq<u8>, i: int, t: Option<int>, h: Option<int>) -> Option<((int, int), int)>
    decreases s.len() - i,
{
    if !(0 <= i < s.len() && s[i] == 34) {
        None
    } else {
        match spec_scan_string(s, i + 1) {
            None => None,
            Some(q) => {
                let key = s.subrange(i + 1, q);
                let j = spec_skip_ws(s, q + 1);
                if !(j < s.len() && s[j] == 58) {
                    None
                } else {
                    let k = spec_skip_ws(s, j + 1);
                    let step: Option<(Option<int>, Option<int>, int)> = if key == key_temp() {
                        if t is Some {
                            None
                        } else {
                            match spec_parse_number(s, k) {
                                None => None,
                                Some((c, ve)) => if -number_bound() <= c <= number_bound() {
                                    Some((Some(c), h, ve))
                                } else {
                                    None
                                },
                            }
                        }
                    } else if key == key_humidity() {
                        if h is Some {
                            None
                        } else {
                            match spec_parse_number(s, k) {
                                None => None,
                                Some((c, ve)) => if c < 0 || c % 100 != 0 || c / 100 > 0xffffffff {
                                    None
                                } else {
                                    Some((t, Some(c / 100), ve))
                                },
                            }
                        }
                    } else {
                        match spec_skip_value(s, k) {
                            None => None,
                            Some(ve) => Some((t, h, ve)),
                        }
                    };
                    match step {
                        None => None,
                        Some((t2, h2, ve)) => {
                            let m = spec_skip_ws(s, ve);
                            if m < s.len() && s[m] == 44 {
                                let n = spec_skip_ws(s, m + 1);
                                if i < n <= s.len() {
                                    spec_main_members(s, n, t2, h2)
                                } else {
                                    None
                                }
                            } else if m < s.len() && s[m] == 125 {
                                match (t2, h2) {
                                    (Some(tv), Some(hv)) => Some(((tv, hv), m + 1)),
                                    _ => None,
                                }
                            } else {
                                None
                            }
                        },
                    }
                }
            },
        }
    }
}

/// The `main` object.
pub open spec fn spec_main_obj(s: Seq<u8>, i: int) -> Option<((int, int), int)> {
    if 0 <= i < s.len() && s[i] == 123 {
        let j = spec_skip_ws(s, i + 1);
        spec_main_members(s, j, None, None)
    } else {
        None
    }
}

/// Members of the `wind` object: `speed` as a bounded number.
pub open spec fn spec_wind_members(s: Seq<u8>, i: int, w: Option<int>) -> Option<(int, int)>
    decreases s.len() - i,
{
    if !(0 <= i < s.len() && s[i] == 34) {
        None
    } else {
        match spec_scan_string(s, i + 1) {
            None => None,
            Some(q) => {
                let key = s.subrange(i + 1, q);
                let j = spec_skip_ws(s, q + 1);
                if !(j < s.len() && s[j] == 58) {
                    None
                } else {
                    let k = spec_skip_ws(s, j + 1);
                    let step: Option<(Option<int>, int)> = if key == key_speed() {
                        if w is Some {
                            None
                        } else {
                            match spec_parse_number(s, k) {
                                None => None,
                                Some((c, ve)) => if -number_bound() <= c <= number_bound() {
                                    Some((Some(c), ve))
                                } else {
                                    None
                                },
                            }
                        }
                    } else {
                        match spec_skip_value(s, k) {
                            None => None,
                            Some(ve) => Some((w, ve)),
                        }
                    };
                    match step {
                        None => None,
                        Some((w2, ve)) => {
                            let m = spec_skip_ws(s, ve);
                            if m < s.len() && s[m] == 44 {
                                let n = spec_skip_ws(s, m + 1);
                                if i < n <= s.len() {
                                    spec_wind_members(s, n, w2)
                                } else {
                                    None
                                }
                            } else if m < s.len() && s[m] == 125 {
                                match w2 {
                                    Some(wv) => Some((wv, m + 1)),
                                    None => None,
                                }
                            } else {
                                None
                            }
                        },
                    }
                }
            },
        }
    }
}

/// The `wind` object.
pub open spec fn spec_wind_obj(s: Seq<u8>, i: int) -> Option<(int, int)> {
    if 0 <= i < s.len() && s[i] == 123 {
        let j = spec_skip_ws(s, i + 1);
        spec_wind_members(s, j, None)
    } else {
        None
    }
}

/// Members of the top-level weather object: `weather`, `main` and `wind`,
/// each required once, everything else skipped.
pub open spec fn spec_weather_members(
    s: Seq<u8>,
    i: int,
    conds: Option<Seq<Seq<u8>>>,
    mn: Option<(int, int)>,
    wd: Option<int>,
) -> Option<(SpecWeatherData, int)>
    decreases s.len() - i,
{
    if !(0 <= i < s.len() && s[i] == 34) {
        None
    } else {
        match spec_scan_string(s, i + 1) {
            None => None,
            Some(q) => {
                let key = s.subrange(i + 1, q);
                let j = spec_skip_ws(s, q + 1);
                if !(j < s.len() && s[j] == 58) {
                    None
                } else {
                    let k = spec_skip_ws(s, j + 1);
                    let step: Option<(Option<Seq<Seq<u8>>>, Option<(int, int)>, Option<int>, int)> =
                        if key == key_weather() {
                            if conds is Some {
                                None
                            } else {
                                match spec_cond_list(s, k) {
                                    None => None,
                                    Some((cs, ve)) => Some((Some(cs), mn, wd, ve)),
                                }
                            }
                        } else if key == key_main() {
                            if mn is Some {
                                None
                            } else {
                                match spec_main_obj(s, k) {
                                    None => None,
                                    Some((tv, ve)) => Some((conds, Some(tv), wd, ve)),
                                }
                            }
                        } else if key == key_wind() {
                            if wd is Some {
                                None
                            } else {
                                match spec_wind_obj(s, k) {
                                    None => None,
                                    Some((wv, ve)) => Some((conds, mn, Some(wv), ve)),
                                }
                            }
                        } else {
                            match spec_skip_value(s, k) {
                                None => None,
                                Some(ve) => Some((conds, mn, wd, ve)),
                            }
                        };
                    match step {
                        None => None,
                        Some((c2, m2, w2, ve)) => {
                            let m = spec_skip_ws(s, ve);
                            if m < s.len() && s[m] == 44 {
                                let n = spec_skip_ws(s, m + 1);
                                if i < n <= s.len() {
                                    spec_weather_members(s, n, c2, m2, w2)
                                } else {
                                    None
                                }
                            } else if m < s.len() && s[m] == 125 {
                                match (c2, m2, w2) {
                                    (Some(cs), Some((tv, hv)), Some(wv)) => Some((
                                        SpecWeatherData {
                                            conditions: cs,
                                            temp: tv,
                                            humidity: hv,
                                            speed: wv,
                                        },
                                        m + 1,
                                    )),
                                    _ => None,
                                }
                            } else {
                                None
                            }
                        },
                    }
                }
            },
        }
    }
}

/// What a whole weather body decodes to: the top-level object with its three
/// required members, nothing but whitespace after it, and at least one
/// condition entry.
pub open spec fn spec_parse_weather(s: Seq<u8>) -> Option<SpecWeatherData> {
    let i = spec_skip_ws(s, 0);
    if i < s.len() && s[i] == 123 {
        let j = spec_skip_ws(s, i + 1);
        match spec_weather_members(s, j, None, None, None) {
            None => None,
            Some((w, e)) => {
                let t = spec_skip_ws(s, e);
                if t == s.len() && w.conditions.len() >= 1 {
                    Some(w)
                } else {
                    None
                }
            },
        }
    } else {
        None
    }
}

/// Members of the geolocation object: `city` as a string, required once,
/// everything else skipped.
pub open spec fn spec_geo_members(s: Seq<u8>, i: int, acc: Option<Seq<u8>>) -> Option<(Seq<u8>, int)>
    decreases s.len() - i,
{
    if !(0 <= i < s.len() && s[i] == 34) {
        None
    } else {
        match spec_scan_string(s, i + 1) {
            None => None,
            Some(q) => {
                let key = s.subrange(i + 1, q);
                let j = spec_skip_ws(s, q + 1);
                if !(j < s.len() && s[j] == 58) {
                    None
                } else {
                    let k = spec_skip_ws(s, j + 1);
                    let step: Option<(Option<Seq<u8>>, int)> = if key == key_city() {
                        if acc is Some {
                            None
                        } else if k < s.len() && s[k] == 34 {
                            match spec_scan_string(s, k + 1) {
                                None => None,
                                Some(q2) => Some((Some(s.subrange(k + 1, q2)), q2 + 1)),
                            }
                        } else {
                            None
                        }
                    } else {
                        match spec_skip_value(s, k) {
                            None => None,
                            Some(ve) => Some((acc, ve)),
                        }
                    };
                    match step {
                        None => None,
                        Some((acc2, ve)) => {
                            let m = spec_skip_ws(s, ve);
                            if m < s.len() && s[m] == 44 {
                                let n = spec_skip_ws(s, m + 1);
                                if i < n <= s.len() {
                                    spec_geo_members(s, n, acc2)
                                } else {
                                    None
                                }
                            } else if m < s.len() && s[m] == 125 {
                                match acc2 {
                                    Some(city) => Some((city, m + 1)),
                                    None => None,
                                }
                            } else {
                                None
                            }
                        },
                    }
                }
            },
        }
    }
}

/// What a whole geolocation body decodes to: the city's raw bytes.
pub open spec fn spec_parse_geolocation(s: Seq<u8>) -> Option<Seq<u8>> {
    let i = spec_skip_ws(s, 0);
    if i < s.len() && s[i] == 123 {
        let j = spec_skip_ws(s, i + 1);
        match spec_geo_members(s, j, None) {
            None => None,
            Some((city, e)) => {
                let t = spec_skip_ws(s, e);
                if t == s.len() {
                    Some(city)
                } else {
                    None
                }
            },
        }
    } else {
        None
    }
}

/// The views of a sequence of byte vectors.
pub open spec fn views_of(v: Seq<Vec<u8>>) -> Seq<Seq<u8>> {
    v.map_values(|x: Vec<u8>| x@)
}

/// The view of an optional byte vector.
pub open spec fn view_opt_bytes(o: Option<Vec<u8>>) -> Option<Seq<u8>> {
    match o {
        Some(v) => Some(v@),
        None => None,
    }
}

/// The view of optional condition categories.
pub open spec fn view_opt_conds(o: Option<Vec<Vec<u8>>>) -> Option<Seq<Seq<u8>>> {
    match o {
        Some(v) => Some(views_of(v@)),
        None => None,
    }
}

/// The view of an optional temperature/humidity pair.
pub open spec fn view_opt_mn(o: Option<(i64, u32)>) -> Option<(int, int)> {
    match o {
        Some((t, h)) => Some((t as int, h as int)),
        None => None,
    }
}

/// The view of an optional speed.
pub open spec fn view_opt_wd(o: Option<i64>) -> Option<int> {
    match o {
        Some(w) => Some(w as int),
        None => None,
    }
}

/// Compares raw bytes against the UTF-8 bytes of a string slice.
fn bytes_eq_str(v: &Vec<u8>, s: &str) -> (r: bool)
    ensures
        r == (v@ == s.spec_bytes()),
{
    let b = s.as_bytes();
    if v.len() != b.len() {
        return false;
    }
    let n = v.len();
    let mut k: usize = 0;
    while k < n
        invariant
            k <= n,
            n == v.len() == b@.len(),
            b@ == s.spec_bytes(),
            forall|t: int| 0 <= t < k ==> v@[t] == b@[t],
        decreases n - k,
    {
        if v[k] != b[k] {
            return false;
        }
        k = k + 1;
    }
    proof {
        assert(v@ =~= b@);
    }
    true
}

/// Relies on `String::from_utf8`: it succeeds exactly on valid UTF-8 input
/// and returns the string of the decoded characters.
#[verifier::external_body]
fn bytes_to_string(v: &Vec<u8>) -> (r: Option<String>)
    ensures
        r matches Some(t) ==> valid_utf8(v@) && t@ == decode_utf8(v@),
        r is None ==> !valid_utf8(v@),
{
    String::from_utf8(v.clone()).ok()
}

fn cond_members(s: &Vec<u8>, i: usize, acc: Option<Vec<u8>>) -> (r: Option<(Vec<u8>, usize)>)
    requires
        i <= s.len(),
    ensures
        r matches Some((cat, e)) ==> i < e <= s.len()
            && spec_cond_members(s@, i as int, view_opt_bytes(acc)) == Some((cat@, e as int)),
        r is None ==> spec_cond_members(s@, i as int, view_opt_bytes(acc)) is None,
    decreases s.len() - i,
{
    if i >= s.len() || s[i] != 34 {
        return None;
    }
    let q = match scan_string(s, i + 1) {
        Some(q) => q,
        None => {
            return None;
        },
    };
    let key = copy_range(s, i + 1, q);
    let j = skip_ws(s, q + 1);
    if !(j < s.len() && s[j] == 58) {
        return None;
    }
    let k = skip_ws(s, j + 1);
    let (acc2, ve): (Option<Vec<u8>>, usize) = if bytes_eq_str(&key, "main") {
        if acc.is_some() {
            return None;
        }
        if k < s.len() && s[k] == 34 {
            let q2 = match scan_string(s, k + 1) {
                Some(q2) => q2,
                None => {
                    return None;
                },
            };
            (Some(copy_range(s, k + 1, q2)), q2 + 1)
        } else {
            return None;
        }
    } else {
        match skip_value(s, k) {
            Some(ve) => (acc, ve),
            None => {
                return None;
            },
        }
    };
    let m = skip_ws(s, ve);
    if m < s.len() && s[m] == 44 {
        let n = skip_ws(s, m + 1);
        cond_members(s, n, acc2)
    } else if m < s.len() && s[m] == 125 {
        match acc2 {
            Some(cat) => Some((cat, m + 1)),
            None => None,
        }
    } else {
        None
    }
}

fn cond_entry(s: &Vec<u8>, i: usize) -> (r: Option<(Vec<u8>, usize)>)
    requires
        i <= s.len(),
    ensures
        r matches Some((cat, e)) ==> i < e <= s.len()
            && spec_cond_entry(s@, i as int) == Some((cat@, e as int)),
        r is None ==> spec_cond_entry(s@, i as int) is None,
{
    if i < s.len() && s[i] == 123 {
        let j = skip_ws(s, i + 1);
        cond_members(s, j, None)
    } else {
        None
    }
}

fn cond_elems(s: &Vec<u8>, i: usize, acc: Vec<Vec<u8>>) -> (r: Option<(Vec<Vec<u8>>, usize)>)
    requires
        i <= s.len(),
    ensures
        r matches Some((cs, e)) ==> i < e <= s.len()
            && spec_cond_elems(s@, i as int, views_of(acc@)) == Some((views_of(cs@), e as int)),
        r is None ==> spec_cond_elems(s@, i as int, views_of(acc@)) is None,
    decreases s.len() - i,
{
    let (cat, e) = match cond_entry(s, i) {
        Some(p) => p,
        None => {
            return None;
        },
    };
    let m = skip_ws(s, e);
    let mut acc2 = acc;
    let ghost old_views = views_of(acc2@);
    acc2.push(cat);
    proof {
        assert(views_of(acc2@) =~= old_views.push(acc2@.last()@));
    }
    if m < s.len() && s[m] == 44 {
        let n = skip_ws(s, m + 1);
        cond_elems(s, n, acc2)
    } else if m < s.len() && s[m] == 93 {
        Some((acc2, m + 1))
    } else {
        None
    }
}

fn cond_list(s: &Vec<u8>, i: usize) -> (r: Option<(Vec<Vec<u8>>, usize)>)
    requires
        i <= s.len(),
    ensures
        r matches Some((cs, e)) ==> i < e <= s.len()
            && spec_cond_list(s@, i as int) == Some((views_of(cs@), e as int)),
        r is None ==> spec_cond_list(s@, i as int) is None,
{
    if i < s.len() && s[i] == 91 {
        let j = skip_ws(s, i + 1);
        if j < s.len() && s[j] == 93 {
            let cs: Vec<Vec<u8>> = Vec::new();
            proof {
                assert(views_of(cs@) =~= Seq::<Seq<u8>>::empty());
            }
            Some((cs, j + 1))
        } else {
            let cs: Vec<Vec<u8>> = Vec::new();
            proof {
                assert(views_of(cs@) =~= Seq::<Seq<u8>>::empty());
            }
            cond_elems(s, j, cs)
        }
    } else {
        None
    }
}

/// The view of an optional bounded number.
pub open spec fn view_opt_i64(o: Option<i64>) -> Option<int> {
    match o {
        Some(v) => Some(v as int),
        None => None,
    }
}

/// The view of an optional humidity.
pub open spec fn view_opt_u32(o: Option<u32>) -> Option<int> {
    match o {
        Some(v) => Some(v as int),
        None => None,
    }
}

fn main_members(s: &Vec<u8>, i: usize, t: Option<i64>, h: Option<u32>) -> (r: Option<
    ((i64, u32), usize)>)
    requires
        i <= s.len(),
        t matches Some(tv) ==> -1000000000000000 <= tv <= 1000000000000000,
    ensures
        r matches Some((mv, e)) ==> i < e <= s.len()
            && spec_main_members(s@, i as int, view_opt_i64(t), view_opt_u32(h))
                == Some(((mv.0 as int, mv.1 as int), e as int))
            && -1000000000000000 <= mv.0 <= 1000000000000000,
        r is None ==> spec_main_members(s@, i as int, view_opt_i64(t), view_opt_u32(h)) is None,
    decreases s.len() - i,
{
    if i >= s.len() || s[i] != 34 {
        return None;
    }
    let q = match scan_string(s, i + 1) {
        Some(q) => q,
        None => {
            return None;
        },
    };
    let key = copy_range(s, i + 1, q);
    let j = skip_ws(s, q + 1);
    if !(j < s.len() && s[j] == 58) {
        return None;
    }
    let k = skip_ws(s, j + 1);
    let (t2, h2, ve): (Option<i64>, Option<u32>, usize) = if bytes_eq_str(&key, "temp") {
        if t.is_some() {
            return None;
        }
        match parse_number(s, k) {
            None => {
                return None;
            },
            Some((c, ve)) => {
                if c < -1000000000000000 || c > 1000000000000000 {
                    return None;
                }
                (Some(c), h, ve)
            },
        }
    } else if bytes_eq_str(&key, "humidity") {
        if h.is_some() {
            return None;
        }
        match parse_number(s, k) {
            None => {
                return None;
            },
            Some((c, ve)) => {
                if c < 0 || c % 100 != 0 || c / 100 > 0xffffffff {
                    return None;
                }
                (t, Some((c / 100) as u32), ve)
            },
        }
    } else {
        match skip_value(s, k) {
            Some(ve) => (t, h, ve),
            None => {
                return None;
            },
        }
    };
    let m = skip_ws(s, ve);
    if m < s.len() && s[m] == 44 {
        let n = skip_ws(s, m + 1);
        main_members(s, n, t2, h2)
    } else if m < s.len() && s[m] == 125 {
        match (t2, h2) {
            (Some(tv), Some(hv)) => Some(((tv, hv), m + 1)),
            _ => None,
        }
    } else {
        None
    }
}

fn main_obj(s: &Vec<u8>, i: usize) -> (r: Option<((i64, u32), usize)>)
    requires
        i <= s.len(),
    ensures
        r matches Some((mv, e)) ==> i < e <= s.len()
            && spec_main_obj(s@, i as int) == Some(((mv.0 as int, mv.1 as int), e as int))
            && -1000000000000000 <= mv.0 <= 1000000000000000,
        r is None ==> spec_main_obj(s@, i as int) is None,
{
    if i < s.len() && s[i] == 123 {
        let j = skip_ws(s, i + 1);
        main_members(s, j, None, None)
    } else {
        None
    }
}

fn wind_members(s: &Vec<u8>, i: usize, w: Option<i64>) -> (r: Option<(i64, usize)>)
    requires
        i <= s.len(),
        w matches Some(wv) ==> -1000000000000000 <= wv <= 1000000000000000,
    ensures
        r matches Some((wv, e)) ==> i < e <= s.len()
            && spec_wind_members(s@, i as int, view_opt_i64(w)) == Some((wv as int, e as int))
            && -1000000000000000 <= wv <= 1000000000000000,
        r is None ==> spec_wind_members(s@, i as int, view_opt_i64(w)) is None,
    decreases s.len() - i,
{
    if i >= s.len() || s[i] != 34 {
        return None;
    }
    let q = match scan_string(s, i + 1) {
        Some(q) => q,
        None => {
            return None;
        },
    };
    let key = copy_range(s, i + 1, q);
    let j = skip_ws(s, q + 1);
    if !(j < s.len() && s[j] == 58) {
        return None;
    }
    let k = skip_ws(s, j + 1);
    let (w2, ve): (Option<i64>, usize) = if bytes_eq_str(&key, "speed") {
        if w.is_some() {
            return None;
        }
        match parse_number(s, k) {
            None => {
                return None;
            },
            Some((c, ve)) => {
                if c < -1000000000000000 || c > 1000000000000000 {
                    return None;
                }
                (Some(c), ve)
            },
        }
    } else {
        match skip_value(s, k) {
            Some(ve) => (w, ve),
            None => {
                return None;
            },
        }
    };
    let m = skip_ws(s, ve);
    if m < s.len() && s[m] == 44 {
        let n = skip_ws(s, m + 1);
        wind_members(s, n, w2)
    } else if m < s.len() && s[m] == 125 {
        match w2 {
            Some(wv) => Some((wv, m + 1)),
            None => None,
        }
    } else {
        None
    }
}

fn wind_obj(s: &Vec<u8>, i: usize) -> (r: Option<(i64, usize)>)
    requires
        i <= s.len(),
    ensures
        r matches Some((wv, e)) ==> i < e <= s.len()
            && spec_wind_obj(s@, i as int) == Some((wv as int, e as int))
            && -1000000000000000 <= wv <= 1000000000000000,
        r is None ==> spec_wind_obj(s@, i as int) is None,
{
    if i < s.len() && s[i] == 123 {
        let j = skip_ws(s, i + 1);
        wind_members(s, j, None)
    } else {
        None
    }
}

fn weather_members(
    s: &Vec<u8>,
    i: usize,
    conds: Option<Vec<Vec<u8>>>,
    mn: Option<(i64, u32)>,
    wd: Option<i64>,
) -> (r: Option<((Vec<Vec<u8>>, (i64, u32), i64), usize)>)
    requires
        i <= s.len(),
        mn matches Some(mv) ==> -1000000000000000 <= mv.0 <= 1000000000000000,
        wd matches Some(wv) ==> -1000000000000000 <= wv <= 1000000000000000,
    ensures
        r matches Some((out, e)) ==> i < e <= s.len()
            && spec_weather_members(
                s@, i as int, view_opt_conds(conds), view_opt_mn(mn), view_opt_wd(wd))
                == Some((
                    SpecWeatherData {
                        conditions: views_of(out.0@),
                        temp: out.1.0 as int,
                        humidity: out.1.1 as int,
                        speed: out.2 as int,
                    },
                    e as int,
                ))
            && -1000000000000000 <= out.1.0 <= 1000000000000000
            && -1000000000000000 <= out.2 <= 1000000000000000,
        r is None ==> spec_weather_members(
            s@, i as int, view_opt_conds(conds), view_opt_mn(mn), view_opt_wd(wd)) is None,
    decreases s.len() - i,
{
    if i >= s.len() || s[i] != 34 {
        return None;
    }
    let q = match scan_string(s, i + 1) {
        Some(q) => q,
        None => {
            return None;
        },
    };
    let key = copy_range(s, i + 1, q);
    let j = skip_ws(s, q + 1);
    if !(j < s.len() && s[j] == 58) {
        return None;
    }
    let k = skip_ws(s, j + 1);
    let (c2, m2, w2, ve): (Option<Vec<Vec<u8>>>, Option<(i64, u32)>, Option<i64>, usize) =
        if bytes_eq_str(&key, "weather") {
        if conds.is_some() {
            return None;
        }
        match cond_list(s, k) {
            None => {
                return None;
            },
            Some((cs, ve)) => (Some(cs), mn, wd, ve),
        }
    } else if bytes_eq_str(&key, "main") {
        if mn.is_some() {
            return None;
        }
        match main_obj(s, k) {
            None => {
                return None;
            },
            Some((mv, ve)) => (conds, Some(mv), wd, ve),
        }
    } else if bytes_eq_str(&key, "wind") {
        if wd.is_some() {
            return None;
        }
        match wind_obj(s, k) {
            None => {
                return None;
            },
            Some((wv, ve)) => (conds, mn, Some(wv), ve),
        }
    } else {
        match skip_value(s, k) {
            Some(ve) => (conds, mn, wd, ve),
            None => {
                return None;
            },
        }
    };
    let m = skip_ws(s, ve);
    if m < s.len() && s[m] == 44 {
        let n = skip_ws(s, m + 1);
        weather_members(s, n, c2, m2, w2)
    } else if m < s.len() && s[m] == 125 {
        match (c2, m2, w2) {
            (Some(cs), Some(mv), Some(wv)) => Some(((cs, mv, wv), m + 1)),
            _ => None,
        }
    } else {
        None
    }
}

impl WeatherData {
    /// The record reads as `m`, with each category name UTF-8 decoded.
    pub open spec fn matches_spec(&self, m: SpecWeatherData) -> bool {
        &&& self.weather@.len() == m.conditions.len()
        &&& forall|k: int| 0 <= k < m.conditions.len() ==> valid_utf8(#[trigger] m.conditions[k])
            && self.weather@[k].main@ == decode_utf8(m.conditions[k])
        &&& self.main.temp == m.temp
        &&& self.main.humidity == m.humidity
        &&& self.wind.speed == m.speed
    }

    /// Well-formed for display mapping: at least one condition entry, and
    /// numbers within rendering range.
    pub open spec fn wf(&self) -> bool {
        &&& self.weather@.len() >= 1
        &&& -number_bound() <= self.main.temp <= number_bound()
        &&& -number_bound() <= self.wind.speed <= number_bound()
    }

    /// Decodes a weather body.
    ///
    /// Returns the record exactly when the body decodes
    /// (`spec_parse_weather`) and every category name is valid UTF-8; every
    /// other body is a `DecodeError`.
    pub fn parse_weather(body: &Vec<u8>) -> (r: Result<WeatherData, DecodeError>)
        ensures
            r matches Ok(w) ==> w.wf() && (spec_parse_weather(body@) matches Some(m)
                && w.matches_spec(m)),
            r is Err ==> (spec_parse_weather(body@) is None
                || (spec_parse_weather(body@) matches Some(m)
                    && exists|k: int| 0 <= k < m.conditions.len()
                        && !valid_utf8(#[trigger] m.conditions[k]))),
    {
        let i = skip_ws(body, 0);
        if !(i < body.len() && body[i] == 123) {
            return Err(DecodeError);
        }
        let j = skip_ws(body, i + 1);
        let (out, e) = match weather_members(body, j, None, None, None) {
            Some(p) => p,
            None => {
                return Err(DecodeError);
            },
        };
        let t = skip_ws(body, e);
        if t != body.len() {
            return Err(DecodeError);
        }
        let (conds, mv, wv) = out;
        if conds.len() == 0 {
            proof {
                assert(views_of(conds@) =~= Seq::<Seq<u8>>::empty());
            }
            return Err(DecodeError);
        }
        let ghost m = spec_parse_weather(body@)->Some_0;
        proof {
            assert(spec_parse_weather(body@) == Some(m));
            assert(m.conditions == views_of(conds@));
        }
        let mut weather: Vec<Weather> = Vec::new();
        let n = conds.len();
        let mut idx: usize = 0;
        while idx < n
            invariant
                idx <= n,
                n == conds.len(),
                spec_parse_weather(body@) == Some(m),
                m.conditions == views_of(conds@),
                weather@.len() == idx,
                forall|k: int| 0 <= k < idx ==> valid_utf8(#[trigger] m.conditions[k])
                    && weather@[k].main@ == decode_utf8(m.conditions[k]),
            decreases n - idx,
        {
            match bytes_to_string(&conds[idx]) {
                Some(st) => {
                    weather.push(Weather { main: st });
                },
                None => {
                    proof {
                        assert(m.conditions.len() == conds@.len());
                        assert(m.conditions[idx as int] == conds@[idx as int]@);
                        assert(!valid_utf8(m.conditions[idx as int]));
                        assert(spec_parse_weather(body@)->Some_0 == m);
                        assert(!valid_utf8(
                            spec_parse_weather(body@)->Some_0.conditions[idx as int]));
                        assert(exists|k: int|
                            0 <= k < spec_parse_weather(body@)->Some_0.conditions.len()
                                && !valid_utf8(
                                    #[trigger] spec_parse_weather(body@)->Some_0.conditions[k]));
                    }
                    return Err(DecodeError);
                },
            }
            idx = idx + 1;
        }
        Ok(WeatherData { weather, main: Main { temp: mv.0, humidity: mv.1 }, wind: Wind { speed: wv } })
    }
}

fn geo_members(s: &Vec<u8>, i: usize, acc: Option<Vec<u8>>) -> (r: Option<(Vec<u8>, usize)>)
    requires
        i <= s.len(),
    ensures
        r matches Some((city, e)) ==> i < e <= s.len()
            && spec_geo_members(s@, i as int, view_opt_bytes(acc)) == Some((city@, e as int)),
        r is None ==> spec_geo_members(s@, i as int, view_opt_bytes(acc)) is None,
    decreases s.len() - i,
{
    if i >= s.len() || s[i] != 34 {
        return None;
    }
    let q = match scan_string(s, i + 1) {
        Some(q) => q,
        None => {
            return None;
        },
    };
    let key = copy_range(s, i + 1, q);
    let j = skip_ws(s, q + 1);
    if !(j < s.len() && s[j] == 58) {
        return None;
    }
    let k = skip_ws(s, j + 1);
    let (acc2, ve): (Option<Vec<u8>>, usize) = if bytes_eq_str(&key, "city") {
        if acc.is_some() {
            return None;
        }
        if k < s.len() && s[k] == 34 {
            let q2 = match scan_string(s, k + 1) {
                Some(q2) => q2,
                None => {
                    return None;
                },
            };
            (Some(copy_range(s, k + 1, q2)), q2 + 1)
        } else {
            return None;
        }
    } else {
        match skip_value(s, k) {
            Some(ve) => (acc, ve),
            None => {
                return None;
            },
        }
    };
    let m = skip_ws(s, ve);
    if m < s.len() && s[m] == 44 {
        let n = skip_ws(s, m + 1);
        geo_members(s, n, acc2)
    } else if m < s.len() && s[m] == 125 {
        match acc2 {
            Some(city) => Some((city, m + 1)),
            None => None,
        }
    } else {
        None
    }
}

impl IpAddr {
    /// Decodes a geolocation body.
    ///
    /// Returns the record exactly when the body decodes
    /// (`spec_parse_geolocation`) and the city is valid UTF-8; every other
    /// body is a `DecodeError`.
    pub fn parse_geolocation(body: &Vec<u8>) -> (r: Result<IpAddr, DecodeError>)
        ensures
            r matches Ok(g) ==> (spec_parse_geolocation(body@) matches Some(c)
                && valid_utf8(c) && g.city@ == decode_utf8(c)),
            r is Err ==> (spec_parse_geolocation(body@) is None
                || (spec_parse_geolocation(body@) matches Some(c) && !valid_utf8(c))),
    {
        let i = skip_ws(body, 0);
        if !(i < body.len() && body[i] == 123) {
            return Err(DecodeError);
        }
        let j = skip_ws(body, i + 1);
        let (city, e) = match geo_members(body, j, None) {
            Some(p) => p,
            None => {
                return Err(DecodeError);
            },
        };
        let t = skip_ws(body, e);
        if t != body.len() {
            return Err(DecodeError);
        }
        match bytes_to_string(&city) {
            Some(st) => Ok(IpAddr { city: st }),
            None => Err(DecodeError),
        }
    }
}

} // verus!
