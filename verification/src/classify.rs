//! From a record of the change stream to the event that it reports.

use crate::attribute::AttributeValue;
use crate::codec::{decode, decode_files, decode_spec, decode_text, DecodeError, Field};
use crate::model::{Event, EventView, TestRunView};
use crate::string_map::StringMap;
use vstd::prelude::*;

verus! {

/// The kind of change that a record reports.
#[derive(Clone, Copy, Debug, PartialEq, Eq, Structural)]
pub enum Operation {
    Inserted,
    Modified,
    Removed,
}

/// One record of the change stream: the operation under the tag that the
/// stream gives it, and the item before and after the change.
#[derive(Debug)]
pub struct ChangeNotification {
    pub operation: String,
    pub before_image: StringMap<AttributeValue>,
    pub after_image: StringMap<AttributeValue>,
    pub source_region: String,
    pub sequence_id: String,
}

/// Why a record gives no event.
#[derive(Clone, Copy, Debug, PartialEq, Eq, Structural)]
pub enum ClassifyError {
    /// The tag names none of the three operations.
    UnknownOperation,
    /// An image that the operation needs does not stand for a test run.
    Decode(DecodeError),
}

/// The operation that a tag of the stream names.
pub open spec fn operation_of(tag: Seq<char>) -> Option<Operation> {
    if tag == "INSERT"@ {
        Some(Operation::Inserted)
    } else if tag == "MODIFY"@ {
        Some(Operation::Modified)
    } else if tag == "REMOVE"@ {
        Some(Operation::Removed)
    } else {
        None
    }
}

/// The image of a record as a test run.
pub open spec fn image(attrs: Map<Seq<char>, AttributeValue>) -> Result<
    TestRunView,
    ClassifyError,
> {
    match decode_spec(attrs) {
        Ok(run) => Ok(run),
        Err(e) => Err(ClassifyError::Decode(e)),
    }
}

/// The event that a record reports. An insertion is read from the image
/// after the change, a removal from the image before it, a modification
/// from both, the earlier one first.
pub open spec fn classify_spec(
    tag: Seq<char>,
    before: Map<Seq<char>, AttributeValue>,
    after: Map<Seq<char>, AttributeValue>,
) -> Result<EventView, ClassifyError> {
    match operation_of(tag) {
        None => Err(ClassifyError::UnknownOperation),
        Some(Operation::Inserted) => match image(after) {
            Ok(testrun) => Ok(EventView::Created { testrun }),
            Err(e) => Err(e),
        },
        Some(Operation::Modified) => match image(before) {
            Err(e) => Err(e),
            Ok(old) => match image(after) {
                Ok(new) => Ok(EventView::Updated { old, new }),
                Err(e) => Err(e),
            },
        },
        Some(Operation::Removed) => match image(before) {
            Ok(testrun) => Ok(EventView::Deleted { testrun }),
            Err(e) => Err(e),
        },
    }
}

/// Reads the tag of an operation.
pub fn parse_operation(tag: &str) -> (r: Option<Operation>)
    ensures
        r == operation_of(tag@),
{
    let owned: String = tag.to_owned();
    if owned == "INSERT".to_owned() {
        Some(Operation::Inserted)
    } else if owned == "MODIFY".to_owned() {
        Some(Operation::Modified)
    } else if owned == "REMOVE".to_owned() {
        Some(Operation::Removed)
    } else {
        None
    }
}

/// Turns a record of the change stream into the event that it reports.
pub fn classify(notification: &ChangeNotification) -> (r: Result<Event, ClassifyError>)
    ensures
        match r {
            Ok(event) => event@.wf() && classify_spec(
                notification.operation@,
                notification.before_image@,
                notification.after_image@,
            ) == Ok::<_, ClassifyError>(event@),
            Err(e) => classify_spec(
                notification.operation@,
                notification.before_image@,
                notification.after_image@,
            ) == Err::<EventView, _>(e),
        },
{
    match parse_operation(notification.operation.as_str()) {
        None => Err(ClassifyError::UnknownOperation),
        Some(Operation::Inserted) => match decode(&notification.after_image) {
            Ok(testrun) => Ok(Event::Created { testrun }),
            Err(e) => Err(ClassifyError::Decode(e)),
        },
        Some(Operation::Modified) => match decode(&notification.before_image) {
            Err(e) => Err(ClassifyError::Decode(e)),
            Ok(old) => match decode(&notification.after_image) {
                Ok(new) => Ok(Event::Updated { old, new }),
                Err(e) => Err(ClassifyError::Decode(e)),
            },
        },
        Some(Operation::Removed) => match decode(&notification.before_image) {
            Ok(testrun) => Ok(Event::Deleted { testrun }),
            Err(e) => Err(ClassifyError::Decode(e)),
        },
    }
}

/// An insertion is classified from the image after the change alone, and a
/// removal from the image before it alone.
pub proof fn lemma_unused_image(
    before: Map<Seq<char>, AttributeValue>,
    after: Map<Seq<char>, AttributeValue>,
    other: Map<Seq<char>, AttributeValue>,
)
    ensures
        classify_spec("INSERT"@, before, after) == classify_spec("INSERT"@, other, after),
        classify_spec("REMOVE"@, before, after) == classify_spec("REMOVE"@, before, other),
{
    reveal_strlit("INSERT");
    reveal_strlit("MODIFY");
    reveal_strlit("REMOVE");
    assert("REMOVE"@[0] != "INSERT"@[0]);
    assert("REMOVE"@[0] != "MODIFY"@[0]);
}

/// Where the image that an operation needs is empty, the record is refused
/// with a decode error.
pub proof fn lemma_empty_image(tag: Seq<char>, other: Map<Seq<char>, AttributeValue>)
    ensures
        operation_of(tag) == Some(Operation::Inserted) ==> classify_spec(tag, other, Map::empty())
            == Err::<EventView, _>(
            ClassifyError::Decode(DecodeError::MissingField(Field::Attachments)),
        ),
        operation_of(tag) == Some(Operation::Removed) ==> classify_spec(tag, Map::empty(), other)
            == Err::<EventView, _>(
            ClassifyError::Decode(DecodeError::MissingField(Field::Attachments)),
        ),
        operation_of(tag) == Some(Operation::Modified) ==> classify_spec(
            tag,
            Map::empty(),
            other,
        ) == Err::<EventView, _>(
            ClassifyError::Decode(DecodeError::MissingField(Field::Attachments)),
        ),
{
    let empty = Map::<Seq<char>, AttributeValue>::empty();
    assert(decode_files(empty) == Err::<Seq<(Seq<char>, Seq<char>)>, _>(
        DecodeError::MissingField(Field::Attachments),
    ));
}

/// A modification whose two images hold the same id gives an update whose
/// two test runs have that id.
pub proof fn lemma_update_keeps_id(
    tag: Seq<char>,
    before: Map<Seq<char>, AttributeValue>,
    after: Map<Seq<char>, AttributeValue>,
)
    requires
        classify_spec(tag, before, after) is Ok,
        classify_spec(tag, before, after).unwrap() is Updated,
        decode_text(before, Field::Id) == decode_text(after, Field::Id),
    ensures
        classify_spec(tag, before, after).unwrap()->old.id == classify_spec(
            tag,
            before,
            after,
        ).unwrap()->new.id,
{
}

} // verus!
