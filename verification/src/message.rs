//! The frame of an encoded request or response: a structure of two fields,
//! `head` and `body`, which a format hands over in any order or as a
//! sequence. The rules on the fields are kept here; what the fields hold is
//! decoded elsewhere.

use vstd::prelude::*;

verus! {

/// A field of an encoded request or response.
#[derive(Clone, Copy, Debug, PartialEq, Eq, Structural)]
pub enum Field {
    Head,
    Body,
}

/// Why the frame of a request or response is refused.
#[derive(Clone, Copy, Debug, PartialEq, Eq, Structural)]
pub enum MessageError {
    /// The message carries extensions, which have no encoded form.
    ExtensionsNotEmpty,
    /// The field came a second time.
    DuplicateField(Field),
    /// The field did not come at all.
    MissingField(Field),
    /// The sequence ended after that many elements; it must have two.
    InvalidLength(usize),
}

/// Which fields have come so far.
#[derive(Clone, Copy, Debug, PartialEq, Eq, Structural)]
pub struct Progress {
    pub head: bool,
    pub body: bool,
}

/// Whether the field has come.
pub open spec fn has_come(progress: Progress, field: Field) -> bool {
    match field {
        Field::Head => progress.head,
        Field::Body => progress.body,
    }
}

/// The progress after a field comes: an error if it has come before.
pub open spec fn step(progress: Progress, field: Field) -> Result<Progress, MessageError> {
    if has_come(progress, field) {
        Err(MessageError::DuplicateField(field))
    } else {
        match field {
            Field::Head => Ok(Progress { head: true, body: progress.body }),
            Field::Body => Ok(Progress { head: progress.head, body: true }),
        }
    }
}

/// The progress after the fields come one by one, from nothing: an error
/// at the first field that comes a second time.
pub open spec fn read_fields(fields: Seq<Field>) -> Result<Progress, MessageError>
    decreases fields.len(),
{
    if fields.len() == 0 {
        Ok(Progress { head: false, body: false })
    } else {
        match read_fields(fields.drop_last()) {
            Err(e) => Err(e),
            Ok(progress) => step(progress, fields.last()),
        }
    }
}

/// Whether the fields are complete: the head is asked for first, then the
/// body.
pub open spec fn complete(progress: Progress) -> Result<(), MessageError> {
    if !progress.head {
        Err(MessageError::MissingField(Field::Head))
    } else if !progress.body {
        Err(MessageError::MissingField(Field::Body))
    } else {
        Ok(())
    }
}

/// Whether a run of fields is the frame of a message.
pub open spec fn check_fields(fields: Seq<Field>) -> Result<(), MessageError> {
    match read_fields(fields) {
        Err(e) => Err(e),
        Ok(progress) => complete(progress),
    }
}

impl Field {
    /// The name of the field.
    pub open spec fn name(self) -> Seq<char> {
        match self {
            Field::Head => "head"@,
            Field::Body => "body"@,
        }
    }

    /// The name of the field.
    pub fn as_str(&self) -> (name: &'static str)
        ensures
            name@ == self.name(),
    {
        match self {
            Field::Head => "head",
            Field::Body => "body",
        }
    }

    /// The number of fields.
    pub fn len() -> (count: usize)
        ensures
            count == 2,
    {
        2
    }
}

impl Progress {
    /// No field has come.
    pub fn new() -> (progress: Self)
        ensures
            progress == (Progress { head: false, body: false }),
            read_fields(Seq::empty()) == Ok::<Progress, MessageError>(progress),
    {
        Progress { head: false, body: false }
    }

    /// Takes note that a field comes. Fails with `DuplicateField` if it has
    /// come before, and leaves the progress as it is then.
    pub fn visit(&mut self, field: Field) -> (noted: Result<(), MessageError>)
        ensures
            match noted {
                Ok(_) => step(*old(self), field) == Ok::<Progress, MessageError>(*final(self)),
                Err(e) => step(*old(self), field) == Err::<Progress, MessageError>(e)
                    && *final(self) == *old(self),
            },
    {
        match field {
            Field::Head => {
                if self.head {
                    return Err(MessageError::DuplicateField(Field::Head));
                }
                self.head = true;
            },
            Field::Body => {
                if self.body {
                    return Err(MessageError::DuplicateField(Field::Body));
                }
                self.body = true;
            },
        }
        Ok(())
    }

    /// Whether both fields have come. Fails with `MissingField`, of the
    /// head if it is missing, else of the body.
    pub fn finish(&self) -> (done: Result<(), MessageError>)
        ensures
            done == complete(*self),
    {
        if !self.head {
            Err(MessageError::MissingField(Field::Head))
        } else if !self.body {
            Err(MessageError::MissingField(Field::Body))
        } else {
            Ok(())
        }
    }
}

/// Whether a message may be encoded: it may if it carries no extensions.
pub fn check_extensions(is_empty: bool) -> (checked: Result<(), MessageError>)
    ensures
        checked == (if is_empty {
            Ok::<(), MessageError>(())
        } else {
            Err::<(), MessageError>(MessageError::ExtensionsNotEmpty)
        }),
{
    if is_empty {
        Ok(())
    } else {
        Err(MessageError::ExtensionsNotEmpty)
    }
}

/// Whether a sequence of that many elements holds a message: the head is
/// its first element and the body its second.
pub fn check_length(count: usize) -> (checked: Result<(), MessageError>)
    ensures
        checked == (if count >= 2 {
            Ok::<(), MessageError>(())
        } else {
            Err::<(), MessageError>(MessageError::InvalidLength(count))
        }),
{
    if count >= 2 {
        Ok(())
    } else {
        Err(MessageError::InvalidLength(count))
    }
}

/// Checks a run of fields as they come one by one.
pub fn check(fields: &[Field]) -> (checked: Result<(), MessageError>)
    ensures
        checked == check_fields(fields@),
{
    let mut progress = Progress::new();
    let mut at: usize = 0;
    while at < fields.len()
        invariant
            at <= fields@.len(),
            read_fields(fields@.take(at as int)) == Ok::<Progress, MessageError>(progress),
        decreases fields@.len() - at,
    {
        proof {
            assert(fields@.take(at + 1).drop_last() =~= fields@.take(at as int));
        }
        match progress.visit(fields[at]) {
            Ok(_) => {},
            Err(e) => {
                proof {
                    read_fields_stays_failed(fields@, at + 1);
                }
                return Err(e);
            },
        }
        at += 1;
    }
    proof {
        assert(fields@.take(fields@.len() as int) =~= fields@);
    }
    progress.finish()
}

/// Once a field has come twice, whatever follows changes nothing.
pub proof fn read_fields_stays_failed(fields: Seq<Field>, upto: int)
    requires
        0 <= upto <= fields.len(),
        read_fields(fields.take(upto)) is Err,
    ensures
        read_fields(fields) == read_fields(fields.take(upto)),
    decreases fields.len() - upto,
{
    if upto < fields.len() {
        assert(fields.take(upto + 1).drop_last() =~= fields.take(upto));
        read_fields_stays_failed(fields, upto + 1);
    } else {
        assert(fields.take(upto) =~= fields);
    }
}

/// The frame of a message is its two fields, each once, in either order.
pub proof fn frame_is_head_and_body(fields: Seq<Field>)
    ensures
        check_fields(fields) is Ok <==> (fields == seq![Field::Head, Field::Body] || fields
            == seq![Field::Body, Field::Head]),
{
    let both = seq![Field::Head, Field::Body];
    let swapped = seq![Field::Body, Field::Head];
    if fields == both || fields == swapped {
        assert(read_fields(fields.drop_last().drop_last()) is Ok);
        assert(read_fields(fields.drop_last()) is Ok);
    }
    if check_fields(fields) is Ok {
        count_of_fields(fields);
        if fields[0] == Field::Head {
            assert(fields =~= both);
        } else {
            assert(fields =~= swapped);
        }
    }
}

/// The fields that have come are as many as the marks in the progress.
proof fn count_of_fields(fields: Seq<Field>)
    requires
        read_fields(fields) is Ok,
    ensures
        fields.len() == (if read_fields(fields)->Ok_0.head {
            1int
        } else {
            0int
        }) + (if read_fields(fields)->Ok_0.body {
            1int
        } else {
            0int
        }),
    decreases fields.len(),
{
    if fields.len() > 0 {
        count_of_fields(fields.drop_last());
    }
}

} // verus!
