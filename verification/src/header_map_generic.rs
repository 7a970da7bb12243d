//! The codec of a header map whose values are of any type.
//!
//! A map is encoded as a list of entries in the order of its names. The
//! values of a name are encoded as one bare value where there is exactly
//! one and the format is human readable, and as a sequence otherwise.

use vstd::prelude::*;
use crate::error::{DecodeError, DecodeFailure, EncodeError};
use crate::header_name::{is_canonical_name, parse_name};
use crate::http_specs::header_name_bytes;
use crate::multimap::{
    absorb, build, build_of_well_formed, build_push, first_entry_gives_the_values,
    is_first_with_values, later_entry_is_dropped, values_of, well_formed, Group, Groups,
    OrderedMultiMap,
};
use crate::outcome::{collect, collect_all_ok, collect_first_error, collect_ok_means_all_ok};
use crate::wire::{
    entries_view, group_shape, shape_round_trip, shape_values, Either, Entries, Entry, Shape,
};

verus! {

/// The entry that one group is encoded as; an error for a group without a
/// value.
pub open spec fn encode_group<V>(group: (Seq<u8>, Seq<V>), human_readable: bool) -> Result<
    (Seq<u8>, Shape<V>),
    EncodeError,
> {
    if group.1.len() == 0 {
        Err(EncodeError::EmptyValueGroup)
    } else {
        Ok((group.0, group_shape(group.1, human_readable)))
    }
}

/// The entries that a map is encoded as: one for each group, in the order
/// of the groups.
pub open spec fn encode_map<V>(groups: Groups<V>, human_readable: bool) -> Result<
    Entries<V>,
    EncodeError,
> {
    collect(Seq::new(groups.len(), |i: int| encode_group(groups[i], human_readable)))
}

/// The name and the values that one entry is decoded to.
pub open spec fn decode_entry<V>(entry: (Seq<u8>, Shape<V>), human_readable: bool) -> Result<
    (Seq<u8>, Seq<V>),
    DecodeFailure,
> {
    match parse_name(entry.0) {
        None => Err(DecodeFailure::InvalidKey(entry.0)),
        Some(name) => match shape_values(entry.1, human_readable) {
            None => Err(DecodeFailure::UnexpectedShape),
            Some(values) => Ok((name, values)),
        },
    }
}

/// The map that a list of entries is decoded to: every entry is decoded,
/// and the map is built from them in their order.
pub open spec fn decode_map<V>(entries: Entries<V>, human_readable: bool) -> Result<
    Groups<V>,
    DecodeFailure,
> {
    match collect(Seq::new(entries.len(), |i: int| decode_entry(entries[i], human_readable))) {
        Err(e) => Err(e),
        Ok(decoded) => Ok(build(decoded)),
    }
}

/// Encodes a map as a list of entries.
///
/// Fails with `EmptyValueGroup` exactly when some name of the map has no
/// value.
pub fn serialize<T>(headers: OrderedMultiMap<T>, is_human_readable: bool) -> (entries: Result<
    Vec<Entry<T>>,
    EncodeError,
>)
    ensures
        match entries {
            Ok(encoded) => encode_map(headers@, is_human_readable) == Ok::<Entries<T>, EncodeError>(
                entries_view(encoded@),
            ),
            Err(e) => encode_map(headers@, is_human_readable) == Err::<Entries<T>, EncodeError>(e),
        },
{
    let ghost groups = headers@;
    let ghost outcomes = Seq::new(
        groups.len(),
        |i: int| encode_group(groups[i], is_human_readable),
    );
    let mut entries: Vec<Entry<T>> = Vec::new();
    for group in it: headers.groups
        invariant
            groups == headers@,
            it.seq().len() == groups.len(),
            forall|i: int| 0 <= i < groups.len() ==> (#[trigger] it.seq()[i])@ == groups[i],
            outcomes == Seq::new(groups.len(), |i: int| encode_group(groups[i], is_human_readable)),
            entries@.len() == it.index(),
            forall|i: int|
                0 <= i < entries@.len() ==> (#[trigger] outcomes[i]) == Ok::<
                    (Seq<u8>, Shape<T>),
                    EncodeError,
                >(entries@[i]@),
    {
        let ghost at = it.index() as int;
        let Group { name, values } = group;
        let key = crate::header_name::serialize(&name).to_owned();
        match Either::from_group(values, is_human_readable) {
            Ok(payload) => {
                entries.push(Entry { key, payload });
            },
            Err(e) => {
                proof {
                    collect_first_error(outcomes, at);
                }
                return Err(e);
            },
        }
    }
    proof {
        collect_all_ok(outcomes);
        assert(entries_view(entries@) =~= Seq::new(outcomes.len(), |i: int| outcomes[i]->Ok_0));
    }
    Ok(entries)
}

/// Takes the values of one decoded entry into the map: they become the
/// group of the name, unless the map has the name already or there is no
/// value, in which case the map stays as it is.
pub fn insert_header_values<T>(map: &mut OrderedMultiMap<T>, key: http::HeaderName, values: Vec<T>)
    ensures
        final(map)@ == absorb(old(map)@, header_name_bytes(key), values@),
{
    if values.len() > 0 && !map.contains_key(&key) {
        map.groups.push(Group { name: key, values });
    }
}

/// Decodes a list of entries into a map.
///
/// Fails at the first entry whose key is no header name (`InvalidKey`) or
/// whose payload is a bare value although the format is not human readable
/// (`UnexpectedShape`), and on no other input.
pub fn deserialize<T>(entries: Vec<Entry<T>>, is_human_readable: bool) -> (map: Result<
    OrderedMultiMap<T>,
    DecodeError,
>)
    ensures
        match map {
            Ok(decoded) => decode_map(entries_view(entries@), is_human_readable) == Ok::<
                Groups<T>,
                DecodeFailure,
            >(decoded@) && decoded.well_formed(),
            Err(e) => decode_map(entries_view(entries@), is_human_readable) == Err::<
                Groups<T>,
                DecodeFailure,
            >(e@),
        },
{
    let ghost encoded = entries_view(entries@);
    let ghost outcomes = Seq::new(
        encoded.len(),
        |i: int| decode_entry(encoded[i], is_human_readable),
    );
    let ghost mut decoded: Groups<T> = Seq::empty();
    let mut map: OrderedMultiMap<T> = OrderedMultiMap::new();
    for entry in it: entries
        invariant
            it.seq() == entries@,
            encoded == entries_view(entries@),
            outcomes == Seq::new(
                encoded.len(),
                |i: int| decode_entry(encoded[i], is_human_readable),
            ),
            decoded.len() == it.index(),
            forall|i: int|
                0 <= i < decoded.len() ==> (#[trigger] outcomes[i]) == Ok::<
                    (Seq<u8>, Seq<T>),
                    DecodeFailure,
                >(decoded[i]),
            map@ == build(decoded),
            map.well_formed(),
    {
        let ghost at = it.index() as int;
        let Entry { key, payload } = entry;
        let name = match crate::header_name::deserialize(key.as_str()) {
            Ok(name) => name,
            Err(e) => {
                proof {
                    collect_first_error(outcomes, at);
                }
                return Err(e);
            },
        };
        let values = match payload.into_group(is_human_readable) {
            Ok(values) => values,
            Err(e) => {
                proof {
                    collect_first_error(outcomes, at);
                }
                return Err(e);
            },
        };
        proof {
            build_push(decoded, header_name_bytes(name), values@);
            crate::multimap::absorb_keeps_well_formed(map@, header_name_bytes(name), values@);
            decoded = decoded.push((header_name_bytes(name), values@));
        }
        insert_header_values(&mut map, name, values);
    }
    proof {
        collect_all_ok(outcomes);
        assert(decoded =~= Seq::new(outcomes.len(), |i: int| outcomes[i]->Ok_0));
    }
    Ok(map)
}

/// Decoding what a map was encoded as gives the map back, names and values
/// in their order, in a human-readable format and in any other.
///
/// This holds of every well-formed map whose names are canonical, which the
/// names of a decoded map are.
pub proof fn round_trip<V>(groups: Groups<V>, human_readable: bool)
    requires
        well_formed(groups),
        forall|i: int| 0 <= i < groups.len() ==> is_canonical_name((#[trigger] groups[i]).0),
    ensures
        encode_map(groups, human_readable) is Ok,
        decode_map(encode_map(groups, human_readable)->Ok_0, human_readable) == Ok::<
            Groups<V>,
            DecodeFailure,
        >(groups),
{
    let encoded_outcomes = Seq::new(groups.len(), |i: int| encode_group(groups[i], human_readable));
    collect_all_ok(encoded_outcomes);
    let encoded = encode_map(groups, human_readable)->Ok_0;
    let decoded_outcomes = Seq::new(
        encoded.len(),
        |i: int| decode_entry(encoded[i], human_readable),
    );
    assert forall|i: int| 0 <= i < decoded_outcomes.len() implies (#[trigger] decoded_outcomes[i])
        == Ok::<(Seq<u8>, Seq<V>), DecodeFailure>(groups[i]) by {
        shape_round_trip(groups[i].1, human_readable);
    }
    collect_all_ok(decoded_outcomes);
    assert(Seq::new(decoded_outcomes.len(), |i: int| decoded_outcomes[i]->Ok_0) =~= groups);
    build_of_well_formed(groups);
}

/// What the entries are decoded to one by one, where all of them can be
/// decoded.
proof fn decoded_entries<V>(entries: Entries<V>, human_readable: bool) -> (decoded: Groups<V>)
    requires
        decode_map(entries, human_readable) is Ok,
    ensures
        decode_map(entries, human_readable) == Ok::<Groups<V>, DecodeFailure>(build(decoded)),
        decoded.len() == entries.len(),
        forall|i: int|
            0 <= i < entries.len() ==> decode_entry(#[trigger] entries[i], human_readable) == Ok::<
                (Seq<u8>, Seq<V>),
                DecodeFailure,
            >(decoded[i]),
{
    let outcomes = Seq::new(entries.len(), |i: int| decode_entry(entries[i], human_readable));
    collect_ok_means_all_ok(outcomes);
    collect(outcomes)->Ok_0
}

/// A decoded map is well formed and its names are canonical, so that it
/// can be encoded and decoded again without change.
pub proof fn decoded_map_is_valid<V>(entries: Entries<V>, human_readable: bool)
    requires
        decode_map(entries, human_readable) is Ok,
    ensures
        well_formed(decode_map(entries, human_readable)->Ok_0),
        forall|i: int|
            0 <= i < decode_map(entries, human_readable)->Ok_0.len() ==> is_canonical_name(
                (#[trigger] decode_map(entries, human_readable)->Ok_0[i]).0,
            ),
{
    let decoded = decoded_entries(entries, human_readable);
    crate::multimap::built_groups_come_from_entries(decoded);
    crate::multimap::build_is_well_formed(decoded);
    let groups = build(decoded);
    assert forall|i: int| 0 <= i < groups.len() implies is_canonical_name(
        (#[trigger] groups[i]).0,
    ) by {
        let at = choose|at: int| 0 <= at < decoded.len() && decoded[at] == groups[i];
        crate::header_name::parsed_name_is_canonical(entries[at].0);
    }
}

/// Where several entries have keys of one header name, the first of them
/// that brings a value gives the name its values.
pub proof fn first_key_gives_the_values<V>(entries: Entries<V>, human_readable: bool, at: int)
    requires
        decode_map(entries, human_readable) is Ok,
        0 <= at < entries.len(),
        shape_values(entries[at].1, human_readable)->Some_0.len() > 0,
        forall|j: int|
            0 <= j < at && parse_name((#[trigger] entries[j]).0) == parse_name(entries[at].0)
                ==> shape_values(entries[j].1, human_readable)->Some_0.len() == 0,
    ensures
        values_of(decode_map(entries, human_readable)->Ok_0, parse_name(entries[at].0)->Some_0)
            == shape_values(entries[at].1, human_readable)->Some_0,
{
    let decoded = decoded_entries(entries, human_readable);
    assert(is_first_with_values(decoded, at)) by {
        assert forall|j: int|
            0 <= j < at && (#[trigger] decoded[j]).0 == decoded[at].0 implies decoded[j].1.len()
            == 0 by {
            assert(decode_entry(entries[j], human_readable) is Ok);
        }
    }
    first_entry_gives_the_values(decoded, at);
}

/// Where two entries have keys of one header name and the first of them
/// brings a value, the second counts for nothing: the payload without it is
/// decoded to the same map.
pub proof fn duplicate_key_is_dropped<V>(
    entries: Entries<V>,
    human_readable: bool,
    first: int,
    second: int,
)
    requires
        decode_map(entries, human_readable) is Ok,
        0 <= first < second < entries.len(),
        parse_name(entries[first].0) == parse_name(entries[second].0),
        shape_values(entries[first].1, human_readable)->Some_0.len() > 0,
    ensures
        decode_map(entries.remove(second), human_readable) == decode_map(entries, human_readable),
{
    let decoded = decoded_entries(entries, human_readable);
    let rest = entries.remove(second);
    let outcomes = Seq::new(rest.len(), |i: int| decode_entry(rest[i], human_readable));
    assert forall|i: int| 0 <= i < outcomes.len() implies (#[trigger] outcomes[i]) == Ok::<
        (Seq<u8>, Seq<V>),
        DecodeFailure,
    >(decoded.remove(second)[i]) by {}
    collect_all_ok(outcomes);
    assert(Seq::new(outcomes.len(), |i: int| outcomes[i]->Ok_0) =~= decoded.remove(second));
    later_entry_is_dropped(decoded, first, second);
}

} // verus!
