//! The codec of a header map.
//!
//! A map is encoded as a list of entries in the order of its names. The
//! values of a name are encoded as one bare value where there is exactly
//! one and the format is human readable, and as a sequence otherwise. A
//! value is encoded as text where the format is human readable and as bytes
//! where it is not.

use vstd::prelude::*;
use crate::error::{DecodeError, DecodeFailure, EncodeError};
use crate::header_name::{is_canonical_name, parse_name};
use crate::header_value::{format_value, is_text, is_value, parse_value, value_round_trip};
use crate::http_specs::{
    header_map_contains_key, header_map_get_all, header_map_groups, header_map_keys,
    header_map_try_append, header_name_bytes, header_value_bytes,
};
use crate::multimap::{
    absorb, build, build_of_well_formed, build_push, built_groups_come_from_entries,
    first_entry_gives_the_values, first_of_name_is_position, has_name, is_first_with_values,
    later_entry_is_dropped, values_of, well_formed, Group, Groups,
};
use crate::outcome::{collect, collect_all_ok, collect_first_error, collect_ok_means_all_ok};
use crate::wire::{
    group_shape, shape_round_trip, shape_values, Either, Entries, Entry, Scalar, ScalarModel, Shape,
};

verus! {

/// The groups of a header map: each name with the bytes of its values.
pub type HeaderGroups = Groups<Seq<u8>>;

/// The bytes of each of the values, in their order.
pub open spec fn values_bytes(values: Seq<http::HeaderValue>) -> Seq<Seq<u8>> {
    Seq::new(values.len(), |i: int| header_value_bytes(values[i]))
}

/// The bytes of each of the values, in their order.
pub open spec fn borrowed_values_bytes(values: Seq<&http::HeaderValue>) -> Seq<Seq<u8>> {
    Seq::new(values.len(), |i: int| header_value_bytes(*values[i]))
}

/// The encoded forms of the values of one name, in their order.
pub open spec fn format_values(values: Seq<Seq<u8>>, human_readable: bool) -> Result<
    Seq<ScalarModel>,
    EncodeError,
> {
    collect(Seq::new(values.len(), |i: int| format_value(values[i], human_readable)))
}

/// The payload that the values of one name are encoded as.
pub open spec fn encode_payload(values: Seq<Seq<u8>>, human_readable: bool) -> Result<
    Shape<ScalarModel>,
    EncodeError,
> {
    match format_values(values, human_readable) {
        Err(e) => Err(e),
        Ok(scalars) => if scalars.len() == 0 {
            Err(EncodeError::EmptyValueGroup)
        } else {
            Ok(group_shape(scalars, human_readable))
        },
    }
}

/// The entry that one group is encoded as.
pub open spec fn encode_header_group(
    group: (Seq<u8>, Seq<Seq<u8>>),
    human_readable: bool,
) -> Result<(Seq<u8>, Shape<ScalarModel>), EncodeError> {
    match encode_payload(group.1, human_readable) {
        Err(e) => Err(e),
        Ok(payload) => Ok((group.0, payload)),
    }
}

/// The entries that a header map is encoded as: one for each group, in the
/// order of the groups.
pub open spec fn encode_headers(groups: HeaderGroups, human_readable: bool) -> Result<
    Entries<ScalarModel>,
    EncodeError,
> {
    collect(Seq::new(groups.len(), |i: int| encode_header_group(groups[i], human_readable)))
}

/// The header value that one encoded value is decoded to.
pub open spec fn decode_value(scalar: ScalarModel) -> Result<Seq<u8>, DecodeFailure> {
    match parse_value(scalar) {
        Some(bytes) => Ok(bytes),
        None => Err(DecodeFailure::InvalidValue),
    }
}

/// The header values that a payload is decoded to.
pub open spec fn decode_payload(payload: Shape<ScalarModel>, human_readable: bool) -> Result<
    Seq<Seq<u8>>,
    DecodeFailure,
> {
    match shape_values(payload, human_readable) {
        None => Err(DecodeFailure::UnexpectedShape),
        Some(scalars) => collect(Seq::new(scalars.len(), |i: int| decode_value(scalars[i]))),
    }
}

/// The name and the header values that one entry is decoded to: the key is
/// parsed first, then the payload, value by value.
pub open spec fn decode_header_entry(
    entry: (Seq<u8>, Shape<ScalarModel>),
    human_readable: bool,
) -> Result<(Seq<u8>, Seq<Seq<u8>>), DecodeFailure> {
    match parse_name(entry.0) {
        None => Err(DecodeFailure::InvalidKey(entry.0)),
        Some(name) => match decode_payload(entry.1, human_readable) {
            Err(e) => Err(e),
            Ok(values) => Ok((name, values)),
        },
    }
}

/// The header map that a list of entries is decoded to: every entry is
/// decoded, and the map is built from them in their order.
pub open spec fn decode_headers(entries: Entries<ScalarModel>, human_readable: bool) -> Result<
    HeaderGroups,
    DecodeFailure,
> {
    match collect(
        Seq::new(entries.len(), |i: int| decode_header_entry(entries[i], human_readable)),
    ) {
        Err(e) => Err(e),
        Ok(decoded) => Ok(build(decoded)),
    }
}

/// Encodes the values of one name as a payload.
///
/// Fails with `EmptyValueGroup` where there is no value, and with
/// `ValueNotText` where the format is human readable and a value has no
/// textual form.
pub fn encode_values(values: &[&http::HeaderValue], is_human_readable: bool) -> (payload: Result<
    Either<Scalar>,
    EncodeError,
>)
    ensures
        match payload {
            Ok(encoded) => encode_payload(borrowed_values_bytes(values@), is_human_readable)
                == Ok::<Shape<ScalarModel>, EncodeError>(encoded.deep_view()),
            Err(e) => encode_payload(borrowed_values_bytes(values@), is_human_readable)
                == Err::<Shape<ScalarModel>, EncodeError>(e),
        },
{
    let ghost bytes = borrowed_values_bytes(values@);
    let ghost outcomes = Seq::new(bytes.len(), |i: int| format_value(bytes[i], is_human_readable));
    let mut scalars: Vec<Scalar> = Vec::new();
    let mut at: usize = 0;
    while at < values.len()
        invariant
            at <= values@.len(),
            bytes == borrowed_values_bytes(values@),
            outcomes == Seq::new(bytes.len(), |i: int| format_value(bytes[i], is_human_readable)),
            scalars@.len() == at,
            forall|i: int|
                0 <= i < at ==> (#[trigger] outcomes[i]) == Ok::<ScalarModel, EncodeError>(
                    scalars@[i]@,
                ),
        decreases values@.len() - at,
    {
        match crate::header_value::serialize(values[at], is_human_readable) {
            Ok(scalar) => scalars.push(scalar),
            Err(e) => {
                proof {
                    collect_first_error(outcomes, at as int);
                }
                return Err(e);
            },
        }
        at += 1;
    }
    proof {
        collect_all_ok(outcomes);
        assert(scalars.deep_view() =~= Seq::new(outcomes.len(), |i: int| outcomes[i]->Ok_0));
    }
    let ghost models = scalars.deep_view();
    match Either::from_group(scalars, is_human_readable) {
        Ok(payload) => {
            Ok(payload)
        },
        Err(e) => Err(e),
    }
}

/// Encodes a header map as a list of entries.
///
/// Fails at the first name whose values cannot be encoded.
pub fn serialize(headers: &http::HeaderMap<http::HeaderValue>, is_human_readable: bool) -> (entries:
    Result<Vec<Entry<Scalar>>, EncodeError>)
    ensures
        match entries {
            Ok(encoded) => encode_headers(header_map_groups(*headers), is_human_readable) == Ok::<
                Entries<ScalarModel>,
                EncodeError,
            >(encoded.deep_view()),
            Err(e) => encode_headers(header_map_groups(*headers), is_human_readable) == Err::<
                Entries<ScalarModel>,
                EncodeError,
            >(e),
        },
{
    let ghost groups = header_map_groups(*headers);
    let ghost outcomes = Seq::new(
        groups.len(),
        |i: int| encode_header_group(groups[i], is_human_readable),
    );
    let keys = header_map_keys(headers);
    let mut entries: Vec<Entry<Scalar>> = Vec::new();
    let mut at: usize = 0;
    while at < keys.len()
        invariant
            at <= keys@.len(),
            groups == header_map_groups(*headers),
            keys@.len() == groups.len(),
            forall|i: int|
                0 <= i < keys@.len() ==> header_name_bytes(*#[trigger] keys@[i]) == groups[i].0,
            forall|i: int, j: int|
                0 <= i < j < keys@.len() ==> header_name_bytes(*#[trigger] keys@[i])
                    != header_name_bytes(*#[trigger] keys@[j]),
            outcomes == Seq::new(
                groups.len(),
                |i: int| encode_header_group(groups[i], is_human_readable),
            ),
            entries@.len() == at,
            forall|i: int|
                0 <= i < at ==> (#[trigger] outcomes[i]) == Ok::<
                    (Seq<u8>, Shape<ScalarModel>),
                    EncodeError,
                >(entries@[i].deep_view()),
        decreases keys@.len() - at,
    {
        let name = keys[at];
        let values = header_map_get_all(headers, name);
        proof {
            assert forall|j: int| 0 <= j < at implies (#[trigger] groups[j]).0 != header_name_bytes(
                *name,
            ) by {
                assert(header_name_bytes(*keys@[j]) != header_name_bytes(*keys@[at as int]));
            }
            first_of_name_is_position(groups, header_name_bytes(*name), at as int);
            assert(borrowed_values_bytes(values@) =~= groups[at as int].1);
        }
        match encode_values(values.as_slice(), is_human_readable) {
            Ok(payload) => {
                let key = crate::header_name::serialize(name).to_owned();
                entries.push(Entry { key, payload });
            },
            Err(e) => {
                proof {
                    collect_first_error(outcomes, at as int);
                }
                return Err(e);
            },
        }
        at += 1;
    }
    proof {
        collect_all_ok(outcomes);
        assert(entries.deep_view() =~= Seq::new(outcomes.len(), |i: int| outcomes[i]->Ok_0));
    }
    Ok(entries)
}

/// The name of a decoded entry with the bytes of its values.
pub open spec fn decoded_view(group: Group<http::HeaderValue>) -> (Seq<u8>, Seq<Seq<u8>>) {
    (header_name_bytes(group.name), values_bytes(group.values@))
}

/// Decodes a payload into header values.
///
/// Fails with `UnexpectedShape` on a bare value where the format is not
/// human readable, and with `InvalidValue` at the first value that is no
/// header value.
pub fn decode_values(payload: &Either<Scalar>, is_human_readable: bool) -> (values: Result<
    Vec<http::HeaderValue>,
    DecodeError,
>)
    ensures
        match values {
            Ok(decoded) => decode_payload(payload.deep_view(), is_human_readable) == Ok::<
                Seq<Seq<u8>>,
                DecodeFailure,
            >(values_bytes(decoded@)),
            Err(e) => decode_payload(payload.deep_view(), is_human_readable) == Err::<
                Seq<Seq<u8>>,
                DecodeFailure,
            >(e@) && e@ !is MaxSizeReached,
        },
{
    let mut values: Vec<http::HeaderValue> = Vec::new();
    match payload {
        Either::One(scalar) => {
            if !is_human_readable {
                return Err(DecodeError::UnexpectedShape);
            }
            let ghost outcomes = Seq::new(1, |i: int| decode_value(seq![scalar@][i]));
            match crate::header_value::deserialize(scalar) {
                Ok(value) => {
                    values.push(value);
                    proof {
                        collect_all_ok(outcomes);
                        assert(values_bytes(values@) =~= Seq::new(
                            outcomes.len(),
                            |i: int| outcomes[i]->Ok_0,
                        ));
                    }
                    Ok(values)
                },
                Err(e) => {
                    proof {
                        collect_first_error(outcomes, 0);
                    }
                    Err(e)
                },
            }
        },
        Either::Many(scalars) => {
            let ghost models = scalars.deep_view();
            let ghost outcomes = Seq::new(models.len(), |i: int| decode_value(models[i]));
            let mut at: usize = 0;
            while at < scalars.len()
                invariant
                    at <= scalars@.len(),
                    payload.deep_view() == Shape::Many(models),
                    models == scalars.deep_view(),
                    outcomes == Seq::new(models.len(), |i: int| decode_value(models[i])),
                    values@.len() == at,
                    forall|i: int|
                        0 <= i < at ==> (#[trigger] outcomes[i]) == Ok::<Seq<u8>, DecodeFailure>(
                            header_value_bytes(values@[i]),
                        ),
                decreases scalars@.len() - at,
            {
                match crate::header_value::deserialize(&scalars[at]) {
                    Ok(value) => values.push(value),
                    Err(e) => {
                        proof {
                            collect_first_error(outcomes, at as int);
                        }
                        return Err(e);
                    },
                }
                at += 1;
            }
            proof {
                collect_all_ok(outcomes);
                assert(values_bytes(values@) =~= Seq::new(
                    outcomes.len(),
                    |i: int| outcomes[i]->Ok_0,
                ));
            }
            Ok(values)
        },
    }
}

/// Decodes the entries one by one, each into a name and its header values.
///
/// Fails at the first entry that cannot be decoded, with the error of its
/// key where that is no header name, else with the error of its payload.
pub fn decode_entries(entries: &[Entry<Scalar>], is_human_readable: bool) -> (decoded: Result<
    Vec<Group<http::HeaderValue>>,
    DecodeError,
>)
    ensures
        match decoded {
            Ok(groups) => collect(
                Seq::new(
                    entries@.len(),
                    |i: int| decode_header_entry(entries@[i].deep_view(), is_human_readable),
                ),
            ) == Ok::<HeaderGroups, DecodeFailure>(
                Seq::new(groups@.len(), |i: int| decoded_view(groups@[i])),
            ),
            Err(e) => collect(
                Seq::new(
                    entries@.len(),
                    |i: int| decode_header_entry(entries@[i].deep_view(), is_human_readable),
                ),
            ) == Err::<HeaderGroups, DecodeFailure>(e@) && e@ !is MaxSizeReached,
        },
{
    let ghost outcomes = Seq::new(
        entries@.len(),
        |i: int| decode_header_entry(entries@[i].deep_view(), is_human_readable),
    );
    let mut decoded: Vec<Group<http::HeaderValue>> = Vec::new();
    let mut at: usize = 0;
    while at < entries.len()
        invariant
            at <= entries@.len(),
            outcomes == Seq::new(
                entries@.len(),
                |i: int| decode_header_entry(entries@[i].deep_view(), is_human_readable),
            ),
            decoded@.len() == at,
            forall|i: int|
                0 <= i < at ==> (#[trigger] outcomes[i]) == Ok::<
                    (Seq<u8>, Seq<Seq<u8>>),
                    DecodeFailure,
                >(decoded_view(decoded@[i])),
        decreases entries@.len() - at,
    {
        let entry = &entries[at];
        let name = match crate::header_name::deserialize(entry.key.as_str()) {
            Ok(name) => name,
            Err(e) => {
                proof {
                    collect_first_error(outcomes, at as int);
                }
                return Err(e);
            },
        };
        let values = match decode_values(&entry.payload, is_human_readable) {
            Ok(values) => values,
            Err(e) => {
                proof {
                    collect_first_error(outcomes, at as int);
                }
                return Err(e);
            },
        };
        decoded.push(Group { name, values });
        at += 1;
    }
    proof {
        collect_all_ok(outcomes);
        assert(Seq::new(decoded@.len(), |i: int| decoded_view(decoded@[i])) =~= Seq::new(
            outcomes.len(),
            |i: int| outcomes[i]->Ok_0,
        ));
    }
    Ok(decoded)
}

/// Takes the values of one decoded entry into the map: they become the
/// group of the name, unless the map has the name already or there is no
/// value, in which case the map stays as it is.
///
/// Fails with `MaxSizeReached` where the map refuses to grow, which it can
/// only where the values are to be taken in; nothing is said of the map
/// then.
pub fn insert_header_values(
    map: &mut http::HeaderMap<http::HeaderValue>,
    key: http::HeaderName,
    values: Vec<http::HeaderValue>,
) -> (done: Result<(), DecodeError>)
    ensures
        match done {
            Ok(_) => header_map_groups(*final(map)) == absorb(
                header_map_groups(*old(map)),
                header_name_bytes(key),
                values_bytes(values@),
            ),
            Err(e) => e@ == DecodeFailure::MaxSizeReached && values@.len() > 0 && !has_name(
                header_map_groups(*old(map)),
                header_name_bytes(key),
            ),
        },
{
    let ghost before = header_map_groups(*map);
    let ghost name = header_name_bytes(key);
    let ghost bytes = values_bytes(values@);
    if header_map_contains_key(map, &key) {
        return Ok(());
    }
    for value in it: values
        invariant
            it.seq() == values@,
            before == header_map_groups(*old(map)),
            bytes == values_bytes(values@),
            name == header_name_bytes(key),
            !has_name(before, name),
            it.index() == 0 ==> header_map_groups(*map) == before,
            it.index() > 0 ==> header_map_groups(*map) == before.push(
                (name, bytes.take(it.index() as int)),
            ),
    {
        let ghost at = it.index() as int;
        let ghost current = header_map_groups(*map);
        match header_map_try_append(map, key.clone(), value) {
            Ok(_) => {
                proof {
                    if at > 0 {
                        first_of_name_is_position(current, name, before.len() as int);
                        assert(bytes.take(at).push(bytes[at]) =~= bytes.take(at + 1));
                    } else {
                        assert(seq![bytes[0]] =~= bytes.take(1));
                    }
                }
            },
            Err(_) => {
                return Err(DecodeError::MaxSizeReached);
            },
        }
    }
    proof {
        assert(bytes.take(bytes.len() as int) =~= bytes);
    }
    Ok(())
}

/// Decodes a list of entries into a header map.
///
/// Fails at the first entry whose key is no header name (`InvalidKey`),
/// whose payload is a bare value although the format is not human readable
/// (`UnexpectedShape`), or one of whose values is no header value
/// (`InvalidValue`). Where every entry can be decoded, the map is built, and
/// the only failure left is that the map refuses to grow
/// (`MaxSizeReached`), which it does not where no entry brings a value.
pub fn deserialize(entries: &[Entry<Scalar>], is_human_readable: bool) -> (map: Result<
    http::HeaderMap<http::HeaderValue>,
    DecodeError,
>)
    ensures
        match map {
            Ok(decoded) => decode_headers(entries.deep_view(), is_human_readable) == Ok::<
                HeaderGroups,
                DecodeFailure,
            >(header_map_groups(decoded)),
            Err(e) => if e@ is MaxSizeReached {
                decode_headers(entries.deep_view(), is_human_readable) is Ok && decode_headers(
                    entries.deep_view(),
                    is_human_readable,
                )->Ok_0.len() > 0
            } else {
                decode_headers(entries.deep_view(), is_human_readable) == Err::<
                    HeaderGroups,
                    DecodeFailure,
                >(e@)
            },
        },
{
    let ghost encoded = entries.deep_view();
    assert(Seq::new(encoded.len(), |i: int| decode_header_entry(encoded[i], is_human_readable))
        =~= Seq::new(
        entries@.len(),
        |i: int| decode_header_entry(entries@[i].deep_view(), is_human_readable),
    ));
    let decoded = match decode_entries(entries, is_human_readable) {
        Ok(decoded) => decoded,
        Err(e) => {
            return Err(e);
        },
    };
    let ghost groups = Seq::new(decoded@.len(), |i: int| decoded_view(decoded@[i]));
    let mut map = http::HeaderMap::new();
    for group in it: decoded
        invariant
            it.seq() == decoded@,
            encoded == entries.deep_view(),
            groups == Seq::new(decoded@.len(), |i: int| decoded_view(decoded@[i])),
            decode_headers(encoded, is_human_readable) == Ok::<HeaderGroups, DecodeFailure>(
                build(groups),
            ),
            header_map_groups(map) == build(groups.take(it.index() as int)),
    {
        let ghost at = it.index() as int;
        let Group { name, values } = group;
        proof {
            build_push(groups.take(at), header_name_bytes(name), values_bytes(values@));
            assert(groups.take(at).push(groups[at]) =~= groups.take(at + 1));
        }
        match insert_header_values(&mut map, name, values) {
            Ok(_) => {},
            Err(e) => {
                proof {
                    crate::multimap::build_grows(groups, at + 1);
                }
                return Err(e);
            },
        }
    }
    proof {
        assert(groups.take(groups.len() as int) =~= groups);
    }
    Ok(map)
}

/// What holds of the groups of every header map that was decoded: names
/// are distinct and canonical, no group is empty, and every value is a
/// header value.
pub open spec fn valid_headers(groups: HeaderGroups) -> bool {
    &&& well_formed(groups)
    &&& forall|i: int| 0 <= i < groups.len() ==> is_canonical_name((#[trigger] groups[i]).0)
    &&& forall|i: int, j: int|
        0 <= i < groups.len() && 0 <= j < groups[i].1.len() ==> is_value(#[trigger] groups[i].1[j])
}

/// Whether every value of the map shows as text.
pub open spec fn all_text(groups: HeaderGroups) -> bool {
    forall|i: int, j: int|
        0 <= i < groups.len() && 0 <= j < groups[i].1.len() ==> is_text(#[trigger] groups[i].1[j])
}

/// One value of a name is encoded as a bare text where the format is human
/// readable, and as a sequence of one run of bytes where it is not.
pub proof fn single_value_payload(value: Seq<u8>)
    ensures
        is_text(value) ==> encode_payload(seq![value], true) == Ok::<
            Shape<ScalarModel>,
            EncodeError,
        >(Shape::One(ScalarModel::Text(value))),
        encode_payload(seq![value], false) == Ok::<Shape<ScalarModel>, EncodeError>(
            Shape::Many(seq![ScalarModel::Bytes(value)]),
        ),
{
    let values = seq![value];
    let as_bytes = Seq::new(values.len(), |i: int| format_value(values[i], false));
    collect_all_ok(as_bytes);
    assert(Seq::new(as_bytes.len(), |i: int| as_bytes[i]->Ok_0) =~= seq![
        ScalarModel::Bytes(value),
    ]);
    if is_text(value) {
        let as_text = Seq::new(values.len(), |i: int| format_value(values[i], true));
        collect_all_ok(as_text);
    }
}

/// Two or more values of a name are encoded as a sequence of as many
/// elements, each the encoded form of its value, whatever the format.
pub proof fn multi_value_payload(values: Seq<Seq<u8>>, human_readable: bool)
    requires
        values.len() >= 2,
        encode_payload(values, human_readable) is Ok,
    ensures
        encode_payload(values, human_readable)->Ok_0 matches Shape::Many(scalars) && scalars.len()
            == values.len() && forall|i: int|
            0 <= i < values.len() ==> format_value(values[i], human_readable) == Ok::<
                ScalarModel,
                EncodeError,
            >(#[trigger] scalars[i]),
{
    let outcomes = Seq::new(values.len(), |i: int| format_value(values[i], human_readable));
    collect_ok_means_all_ok(outcomes);
}

/// A well-formed map can be encoded in a format that is not human readable,
/// and in one that is if every value shows as text.
pub proof fn encoding_succeeds(groups: HeaderGroups, human_readable: bool)
    requires
        well_formed(groups),
        human_readable ==> all_text(groups),
    ensures
        encode_headers(groups, human_readable) is Ok,
{
    let outcomes = Seq::new(groups.len(), |i: int| encode_header_group(groups[i], human_readable));
    assert forall|i: int| 0 <= i < outcomes.len() implies (#[trigger] outcomes[i]) is Ok by {
        let values = groups[i].1;
        let formatted = Seq::new(values.len(), |j: int| format_value(values[j], human_readable));
        collect_all_ok(formatted);
    }
    collect_all_ok(outcomes);
}

/// Decoding the entry that a group was encoded as gives the group back.
proof fn group_round_trip(group: (Seq<u8>, Seq<Seq<u8>>), human_readable: bool)
    requires
        is_canonical_name(group.0),
        forall|j: int| 0 <= j < group.1.len() ==> is_value(#[trigger] group.1[j]),
        encode_header_group(group, human_readable) is Ok,
    ensures
        decode_header_entry(encode_header_group(group, human_readable)->Ok_0, human_readable)
            == Ok::<(Seq<u8>, Seq<Seq<u8>>), DecodeFailure>(group),
{
    let values = group.1;
    let formatted = Seq::new(values.len(), |j: int| format_value(values[j], human_readable));
    collect_ok_means_all_ok(formatted);
    let scalars = collect(formatted)->Ok_0;
    shape_round_trip(scalars, human_readable);
    let parsed = Seq::new(scalars.len(), |j: int| decode_value(scalars[j]));
    assert forall|j: int| 0 <= j < parsed.len() implies (#[trigger] parsed[j]) == Ok::<
        Seq<u8>,
        DecodeFailure,
    >(values[j]) by {
        value_round_trip(values[j], human_readable);
    }
    collect_all_ok(parsed);
    assert(Seq::new(parsed.len(), |j: int| parsed[j]->Ok_0) =~= values);
}

/// Decoding what a header map was encoded as gives the map back, names and
/// values in their order, in a human-readable format and in any other.
///
/// This holds of every valid map that can be encoded at all.
pub proof fn round_trip(groups: HeaderGroups, human_readable: bool)
    requires
        valid_headers(groups),
        encode_headers(groups, human_readable) is Ok,
    ensures
        decode_headers(encode_headers(groups, human_readable)->Ok_0, human_readable) == Ok::<
            HeaderGroups,
            DecodeFailure,
        >(groups),
{
    let encoded_outcomes = Seq::new(
        groups.len(),
        |i: int| encode_header_group(groups[i], human_readable),
    );
    collect_ok_means_all_ok(encoded_outcomes);
    let encoded = encode_headers(groups, human_readable)->Ok_0;
    let decoded_outcomes = Seq::new(
        encoded.len(),
        |i: int| decode_header_entry(encoded[i], human_readable),
    );
    assert forall|i: int| 0 <= i < decoded_outcomes.len() implies (#[trigger] decoded_outcomes[i])
        == Ok::<(Seq<u8>, Seq<Seq<u8>>), DecodeFailure>(groups[i]) by {
        group_round_trip(groups[i], human_readable);
    }
    collect_all_ok(decoded_outcomes);
    assert(Seq::new(decoded_outcomes.len(), |i: int| decoded_outcomes[i]->Ok_0) =~= groups);
    build_of_well_formed(groups);
}

/// A decoded map is valid, so that it can be encoded and decoded again
/// without change.
pub proof fn decoded_headers_are_valid(entries: Entries<ScalarModel>, human_readable: bool)
    requires
        decode_headers(entries, human_readable) is Ok,
    ensures
        valid_headers(decode_headers(entries, human_readable)->Ok_0),
{
    let decoded = decoded_entries(entries, human_readable);
    assert forall|i: int| 0 <= i < decoded.len() implies is_canonical_name(
        (#[trigger] decoded[i]).0,
    ) && (forall|j: int| 0 <= j < decoded[i].1.len() ==> is_value(#[trigger] decoded[i].1[j])) by {
        crate::header_name::parsed_name_is_canonical(entries[i].0);
        let scalars = shape_values(entries[i].1, human_readable)->Some_0;
        let outcomes = Seq::new(scalars.len(), |j: int| decode_value(scalars[j]));
        collect_ok_means_all_ok(outcomes);
    }
    built_groups_come_from_entries(decoded);
    crate::multimap::build_is_well_formed(decoded);
    let groups = build(decoded);
    assert forall|i: int| 0 <= i < groups.len() implies is_canonical_name(
        (#[trigger] groups[i]).0,
    ) && (forall|j: int| 0 <= j < groups[i].1.len() ==> is_value(#[trigger] groups[i].1[j])) by {}
}

/// What the entries are decoded to one by one, where all of them can be
/// decoded.
proof fn decoded_entries(entries: Entries<ScalarModel>, human_readable: bool) -> (decoded:
    HeaderGroups)
    requires
        decode_headers(entries, human_readable) is Ok,
    ensures
        decode_headers(entries, human_readable) == Ok::<HeaderGroups, DecodeFailure>(
            build(decoded),
        ),
        decoded.len() == entries.len(),
        forall|i: int|
            0 <= i < entries.len() ==> decode_header_entry(#[trigger] entries[i], human_readable)
                == Ok::<(Seq<u8>, Seq<Seq<u8>>), DecodeFailure>(decoded[i]),
{
    let outcomes = Seq::new(
        entries.len(),
        |i: int| decode_header_entry(entries[i], human_readable),
    );
    collect_ok_means_all_ok(outcomes);
    collect(outcomes)->Ok_0
}

/// Where several entries have keys of one header name, the first of them
/// that brings a value gives the name its values.
pub proof fn first_key_gives_the_values(
    entries: Entries<ScalarModel>,
    human_readable: bool,
    at: int,
)
    requires
        decode_headers(entries, human_readable) is Ok,
        0 <= at < entries.len(),
        decode_payload(entries[at].1, human_readable)->Ok_0.len() > 0,
        forall|j: int|
            0 <= j < at && parse_name((#[trigger] entries[j]).0) == parse_name(entries[at].0)
                ==> decode_payload(entries[j].1, human_readable)->Ok_0.len() == 0,
    ensures
        values_of(decode_headers(entries, human_readable)->Ok_0, parse_name(entries[at].0)->Some_0)
            == decode_payload(entries[at].1, human_readable)->Ok_0,
{
    let decoded = decoded_entries(entries, human_readable);
    assert(is_first_with_values(decoded, at)) by {
        assert forall|j: int|
            0 <= j < at && (#[trigger] decoded[j]).0 == decoded[at].0 implies decoded[j].1.len()
            == 0 by {
            assert(decode_header_entry(entries[j], human_readable) is Ok);
        }
    }
    first_entry_gives_the_values(decoded, at);
}

/// Where two entries have keys of one header name and the first of them
/// brings a value, the second counts for nothing: the payload without it is
/// decoded to the same map.
pub proof fn duplicate_key_is_dropped(
    entries: Entries<ScalarModel>,
    human_readable: bool,
    first: int,
    second: int,
)
    requires
        decode_headers(entries, human_readable) is Ok,
        0 <= first < second < entries.len(),
        parse_name(entries[first].0) == parse_name(entries[second].0),
        decode_payload(entries[first].1, human_readable)->Ok_0.len() > 0,
    ensures
        decode_headers(entries.remove(second), human_readable) == decode_headers(
            entries,
            human_readable,
        ),
{
    let decoded = decoded_entries(entries, human_readable);
    let rest = entries.remove(second);
    let outcomes = Seq::new(rest.len(), |i: int| decode_header_entry(rest[i], human_readable));
    assert forall|i: int| 0 <= i < outcomes.len() implies (#[trigger] outcomes[i]) == Ok::<
        (Seq<u8>, Seq<Seq<u8>>),
        DecodeFailure,
    >(decoded.remove(second)[i]) by {}
    collect_all_ok(outcomes);
    assert(Seq::new(outcomes.len(), |i: int| outcomes[i]->Ok_0) =~= decoded.remove(second));
    later_entry_is_dropped(decoded, first, second);
}

} // verus!
