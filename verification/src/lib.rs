//! Current-conditions weather lookup: resolve the caller's public IPv4
//! address, map it to a place name through a geolocation service, fetch the
//! weather for that place (or for a user-supplied one), and map the outcome
//! onto fixed display fields.
//!
//! The crate holds the resolution pipeline and everything it computes on plain
//! values: parsing the IP-echo body, decoding the two JSON response shapes,
//! building the query URLs, the single-flight session guard, and the
//! presentation formatting. The network calls themselves and the user
//! interface live outside the library and only hand bytes in and take plain
//! values back.

pub mod ipv4;
pub mod json;
pub mod num;
pub mod parse;
pub mod pipeline;
pub mod render;
