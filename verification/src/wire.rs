//! The format-independent shape of an encoded header collection: an ordered
//! list of entries, each a key with either one bare value or a sequence of
//! values.
//!
//! Which of the two a group of values takes depends on the format. A
//! self-describing format lets its decoder see whether the next value is
//! bare or a sequence, so a group of one value can go bare. Any other format
//! fixes the shape in advance, so every group is a sequence there. The
//! codecs take a format for self-describing when it says of itself that it
//! is human readable.

use vstd::prelude::*;
use crate::error::{DecodeError, DecodeFailure, EncodeError};

verus! {

/// One encoded header value: text where the format is human readable, raw
/// bytes where it is not.
#[derive(Clone, Debug, PartialEq, Eq)]
pub enum Scalar {
    Text(String),
    Bytes(Vec<u8>),
}

/// What a [`Scalar`] holds; text stands as its UTF-8 bytes.
pub enum ScalarModel {
    Text(Seq<u8>),
    Bytes(Seq<u8>),
}

impl View for Scalar {
    type V = ScalarModel;

    open spec fn view(&self) -> ScalarModel {
        match *self {
            Scalar::Text(text) => ScalarModel::Text(vstd::utf8::encode_utf8(text@)),
            Scalar::Bytes(bytes) => ScalarModel::Bytes(bytes@),
        }
    }
}

impl DeepView for Scalar {
    type V = ScalarModel;

    open spec fn deep_view(&self) -> ScalarModel {
        self@
    }
}

impl ScalarModel {
    /// The bytes of the value, whichever form carries them.
    pub open spec fn bytes(self) -> Seq<u8> {
        match self {
            ScalarModel::Text(bytes) => bytes,
            ScalarModel::Bytes(bytes) => bytes,
        }
    }
}

/// The payload of one entry: a bare value, or a sequence of values.
#[derive(Clone, Debug, PartialEq, Eq)]
pub enum Either<T> {
    One(T),
    Many(Vec<T>),
}

/// What an [`Either`] holds.
pub enum Shape<V> {
    One(V),
    Many(Seq<V>),
}

impl<T> View for Either<T> {
    type V = Shape<T>;

    open spec fn view(&self) -> Shape<T> {
        match *self {
            Either::One(value) => Shape::One(value),
            Either::Many(values) => Shape::Many(values@),
        }
    }
}

impl<T: DeepView> DeepView for Either<T> {
    type V = Shape<T::V>;

    open spec fn deep_view(&self) -> Shape<T::V> {
        match *self {
            Either::One(value) => Shape::One(value.deep_view()),
            Either::Many(values) => Shape::Many(values.deep_view()),
        }
    }
}

/// One entry of an encoded header collection.
#[derive(Clone, Debug, PartialEq, Eq)]
pub struct Entry<T> {
    pub key: String,
    pub payload: Either<T>,
}

impl<T> View for Entry<T> {
    type V = (Seq<u8>, Shape<T>);

    /// The key as its UTF-8 bytes, and the payload.
    open spec fn view(&self) -> (Seq<u8>, Shape<T>) {
        (vstd::utf8::encode_utf8(self.key@), self.payload@)
    }
}

impl<T: DeepView> DeepView for Entry<T> {
    type V = (Seq<u8>, Shape<T::V>);

    open spec fn deep_view(&self) -> (Seq<u8>, Shape<T::V>) {
        (vstd::utf8::encode_utf8(self.key@), self.payload.deep_view())
    }
}

/// What a list of entries holds: each key, as its UTF-8 bytes, with its
/// payload.
pub type Entries<V> = Seq<(Seq<u8>, Shape<V>)>;

/// What the entries hold, in their order.
pub open spec fn entries_view<T>(entries: Seq<Entry<T>>) -> Entries<T> {
    Seq::new(entries.len(), |i: int| entries[i]@)
}

/// The payload that stands for a group of values.
///
/// A group of exactly one value is a bare value where the format is
/// self-describing; every other group is a sequence.
pub open spec fn group_shape<V>(group: Seq<V>, self_describing: bool) -> Shape<V> {
    if group.len() == 1 && self_describing {
        Shape::One(group[0])
    } else {
        Shape::Many(group)
    }
}

/// The group of values that a payload stands for, if the format admits its
/// shape: a bare value is read only from a self-describing format.
pub open spec fn shape_values<V>(shape: Shape<V>, self_describing: bool) -> Option<Seq<V>> {
    match shape {
        Shape::One(value) => if self_describing {
            Some(seq![value])
        } else {
            None
        },
        Shape::Many(values) => Some(values),
    }
}

impl<T> Either<T> {
    /// Encodes a group of values as a payload.
    ///
    /// Fails on the empty group, which no payload stands for.
    pub fn from_group(values: Vec<T>, self_describing: bool) -> (payload: Result<Self, EncodeError>)
        ensures
            values@.len() == 0 ==> payload == Err::<Self, EncodeError>(
                EncodeError::EmptyValueGroup,
            ),
            values@.len() > 0 ==> payload is Ok && payload->Ok_0@ == group_shape(
                values@,
                self_describing,
            ),
    {
        let mut values = values;
        if values.len() == 0 {
            Err(EncodeError::EmptyValueGroup)
        } else if values.len() == 1 && self_describing {
            Ok(Either::One(values.pop().unwrap()))
        } else {
            Ok(Either::Many(values))
        }
    }

    /// Decodes a payload into its group of values.
    ///
    /// Fails on a bare value where the format is not self-describing.
    pub fn into_group(self, self_describing: bool) -> (values: Result<Vec<T>, DecodeError>)
        ensures
            match values {
                Ok(group) => shape_values(self@, self_describing) == Some(group@),
                Err(e) => shape_values(self@, self_describing) is None && e@
                    == DecodeFailure::UnexpectedShape,
            },
    {
        match self {
            Either::One(value) => {
                if self_describing {
                    let mut group = Vec::new();
                    group.push(value);
                    Ok(group)
                } else {
                    Err(DecodeError::UnexpectedShape)
                }
            },
            Either::Many(group) => Ok(group),
        }
    }
}

/// A group of one value is a bare value in a self-describing format and a
/// sequence of one element in any other.
pub proof fn single_value_shape<V>(value: V)
    ensures
        group_shape(seq![value], true) == Shape::One(value),
        group_shape(seq![value], false) == Shape::Many(seq![value]),
{
}

/// A group of two or more values is the sequence of those values, in their
/// order, whatever the format.
pub proof fn multi_value_shape<V>(group: Seq<V>, self_describing: bool)
    requires
        group.len() >= 2,
    ensures
        group_shape(group, self_describing) == Shape::Many(group),
        group_shape(group, self_describing) matches Shape::Many(values) && values.len()
            == group.len(),
{
}

/// Reading back the payload of a group gives the group, in either kind of
/// format.
pub proof fn shape_round_trip<V>(group: Seq<V>, self_describing: bool)
    ensures
        shape_values(group_shape(group, self_describing), self_describing) == Some(group),
{
}

/// A self-describing format reads a group of one value from either shape.
pub proof fn single_value_read_from_both_shapes<V>(value: V)
    ensures
        shape_values(Shape::One(value), true) == Some(seq![value]),
        shape_values(Shape::Many(seq![value]), true) == Some(seq![value]),
        shape_values(Shape::Many(seq![value]), false) == Some(seq![value]),
        shape_values(Shape::One(value), false) is None,
{
}

} // verus!
