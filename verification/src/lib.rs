//! Format-independent codecs for the types of the `http` crate, verified
//! with Verus.
//!
//! The centre of the crate is the codec of header maps. A header map is
//! encoded as a list of [`wire::Entry`] values, one for each name in the
//! order of the map, and the values of a name are encoded as one bare value
//! or as a sequence, depending on how many there are and on whether the
//! format is human readable. [`header_map`] does this for
//! `http::HeaderMap`, [`header_map_generic`] for a map whose values are of
//! any type, held in a [`multimap::OrderedMultiMap`].
//!
//! Around it stand the codecs of the scalar types ([`header_name`],
//! [`header_value`], [`status_code`], [`version`], [`method`], [`uri`] and
//! its parts [`scheme`], [`authority`] and [`path_and_query`]) and the rules
//! on the frame of a request or response ([`message`]).
//!
//! No function of this crate talks to a serialization framework: each takes
//! and gives plain values, and says in its contract what they are. What is
//! proved of the codecs beyond the contracts of the single functions stands
//! beside them as proof functions: that decoding what was encoded gives the
//! value back, which shape a group of values takes, and that of two entries
//! of one name only the first counts.
//!
//! The calls into the `http` crate are given their contracts in
//! [`http_specs`]; Verus takes those on trust.

pub mod authority;
pub mod compare;
pub mod error;
pub mod header_map;
pub mod header_map_generic;
pub mod header_name;
pub mod header_value;
pub mod http_specs;
pub mod message;
pub mod method;
pub mod multimap;
pub mod outcome;
pub mod path_and_query;
pub mod scheme;
pub mod status_code;
pub mod uri;
pub mod version;
pub mod wire;
