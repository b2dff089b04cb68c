//! Test runs as the store holds them: a map of attributes, in which the
//! files and the tests are JSON documents carried as strings.

use crate::attribute::AttributeValue;
use crate::json::{json_text, parsed_json, reads_back, Json};
use crate::model::{
    lemma_string_entries_distinct, string_entries, tests_view, Test, TestRun, TestRunView, TestView,
};
use crate::schema::{
    files_from_json, files_json, files_to_json, json_files, json_tests, lemma_files_read_back,
    lemma_tests_read_back, tests_from_json, tests_json, tests_to_json,
};
use crate::string_map::StringMap;
use vstd::prelude::*;

verus! {

/// A field of a test run.
#[derive(Clone, Copy, Debug, PartialEq, Eq, Structural)]
pub enum Field {
    Id,
    Language,
    Status,
    Attachments,
    TestResults,
}

/// Why a map of attributes does not stand for a test run.
#[derive(Clone, Copy, Debug, PartialEq, Eq, Structural)]
pub enum DecodeError {
    /// No attribute holds the field.
    MissingField(Field),
    /// The attribute that holds the field is not a string.
    TypeMismatch(Field),
    /// The string is no JSON document, or none of the shape that the field has.
    MalformedPayload(Field),
}

impl Field {
    /// The name of the attribute that holds the field.
    pub open spec fn attribute(self) -> Seq<char> {
        match self {
            Field::Id => "id"@,
            Field::Language => "language"@,
            Field::Status => "status"@,
            Field::Attachments => "attachments"@,
            Field::TestResults => "testResults"@,
        }
    }

    /// The name of the attribute that holds the field.
    pub fn name(&self) -> (name: &'static str)
        ensures
            name@ == self.attribute(),
    {
        match self {
            Field::Id => "id",
            Field::Language => "language",
            Field::Status => "status",
            Field::Attachments => "attachments",
            Field::TestResults => "testResults",
        }
    }
}

/// The attribute that holds the files: `attachments`, or under the earlier
/// names `files` and `payload`, in this order of preference.
pub open spec fn files_attribute(attrs: Map<Seq<char>, AttributeValue>) -> Option<AttributeValue> {
    if attrs.contains_key("attachments"@) {
        Some(attrs["attachments"@])
    } else if attrs.contains_key("files"@) {
        Some(attrs["files"@])
    } else if attrs.contains_key("payload"@) {
        Some(attrs["payload"@])
    } else {
        None
    }
}

/// The attribute that holds the tests: `testResults`, or under the earlier
/// name `tests`.
pub open spec fn tests_attribute(attrs: Map<Seq<char>, AttributeValue>) -> Option<AttributeValue> {
    if attrs.contains_key("testResults"@) {
        Some(attrs["testResults"@])
    } else if attrs.contains_key("tests"@) {
        Some(attrs["tests"@])
    } else {
        None
    }
}

/// The map is of the earlier form that holds the files under `payload` and
/// has no place for tests.
pub open spec fn payload_form(attrs: Map<Seq<char>, AttributeValue>) -> bool {
    !attrs.contains_key("attachments"@) && !attrs.contains_key("files"@) && attrs.contains_key(
        "payload"@,
    )
}

/// The files that a text stands for as a JSON document.
pub open spec fn files_of_text(text: Seq<char>) -> Option<Seq<(Seq<char>, Seq<char>)>> {
    match parsed_json(text) {
        Some(document) => json_files(document),
        None => None,
    }
}

/// The tests that a text stands for as a JSON document.
pub open spec fn tests_of_text(text: Seq<char>) -> Option<Seq<TestView>> {
    match parsed_json(text) {
        Some(document) => json_tests(document),
        None => None,
    }
}

/// The text of a scalar field.
pub open spec fn decode_text(attrs: Map<Seq<char>, AttributeValue>, field: Field) -> Result<
    Seq<char>,
    DecodeError,
> {
    if !attrs.contains_key(field.attribute()) {
        Err(DecodeError::MissingField(field))
    } else {
        match attrs[field.attribute()].text() {
            Some(text) => Ok(text),
            None => Err(DecodeError::TypeMismatch(field)),
        }
    }
}

/// The files of the test run that the attributes stand for.
pub open spec fn decode_files(attrs: Map<Seq<char>, AttributeValue>) -> Result<
    Seq<(Seq<char>, Seq<char>)>,
    DecodeError,
> {
    match files_attribute(attrs) {
        None => Err(DecodeError::MissingField(Field::Attachments)),
        Some(value) => match value.text() {
            None => Err(DecodeError::TypeMismatch(Field::Attachments)),
            Some(text) => match files_of_text(text) {
                Some(files) => Ok(files),
                None => Err(DecodeError::MalformedPayload(Field::Attachments)),
            },
        },
    }
}

/// The tests of the test run that the attributes stand for. A map of the
/// payload form has none.
pub open spec fn decode_tests(attrs: Map<Seq<char>, AttributeValue>) -> Result<
    Seq<TestView>,
    DecodeError,
> {
    match tests_attribute(attrs) {
        None => if payload_form(attrs) {
            Ok(Seq::empty())
        } else {
            Err(DecodeError::MissingField(Field::TestResults))
        },
        Some(value) => match value.text() {
            None => Err(DecodeError::TypeMismatch(Field::TestResults)),
            Some(text) => match tests_of_text(text) {
                Some(tests) => Ok(tests),
                None => Err(DecodeError::MalformedPayload(Field::TestResults)),
            },
        },
    }
}

/// The test run that a map of attributes stands for, or the first fault
/// found when the fields are taken in this order: files, tests, id,
/// language, status.
pub open spec fn decode_spec(attrs: Map<Seq<char>, AttributeValue>) -> Result<
    TestRunView,
    DecodeError,
> {
    match decode_files(attrs) {
        Err(e) => Err(e),
        Ok(files) => match decode_tests(attrs) {
            Err(e) => Err(e),
            Ok(tests) => match decode_text(attrs, Field::Id) {
                Err(e) => Err(e),
                Ok(id) => match decode_text(attrs, Field::Language) {
                    Err(e) => Err(e),
                    Ok(language) => match decode_text(attrs, Field::Status) {
                        Err(e) => Err(e),
                        Ok(status) => Ok(TestRunView { id, files, language, status, tests }),
                    },
                },
            },
        },
    }
}

/// Reads a map of strings from the text of a JSON document.
pub fn parse_files(text: &str) -> (r: Option<StringMap<String>>)
    ensures
        match r {
            Some(files) => files.wf() && files_of_text(text@) == Some(
                string_entries(files.entries()),
            ),
            None => files_of_text(text@) is None,
        },
{
    match Json::parse(text) {
        Some(document) => files_from_json(&document),
        None => None,
    }
}

/// Reads a list of test cases from the text of a JSON document.
pub fn parse_tests(text: &str) -> (r: Option<Vec<Test>>)
    ensures
        match r {
            Some(tests) => tests_of_text(text@) == Some(tests_view(tests@)),
            None => tests_of_text(text@) is None,
        },
{
    match Json::parse(text) {
        Some(document) => tests_from_json(&document),
        None => None,
    }
}

/// Reads a scalar field.
fn scalar(attrs: &StringMap<AttributeValue>, field: Field) -> (r: Result<String, DecodeError>)
    ensures
        match r {
            Ok(text) => decode_text(attrs@, field) == Ok::<Seq<char>, DecodeError>(text@),
            Err(e) => decode_text(attrs@, field) == Err::<Seq<char>, DecodeError>(e),
        },
{
    match attrs.get(field.name()) {
        None => Err(DecodeError::MissingField(field)),
        Some(value) => match value.as_s() {
            Some(text) => Ok(text.to_owned()),
            None => Err(DecodeError::TypeMismatch(field)),
        },
    }
}

/// Finds the attribute that holds the files.
fn find_files(attrs: &StringMap<AttributeValue>) -> (r: Option<&AttributeValue>)
    ensures
        match r {
            Some(value) => files_attribute(attrs@) == Some(*value),
            None => files_attribute(attrs@) is None,
        },
{
    match attrs.get("attachments") {
        Some(value) => Some(value),
        None => match attrs.get("files") {
            Some(value) => Some(value),
            None => attrs.get("payload"),
        },
    }
}

/// Finds the attribute that holds the tests.
fn find_tests(attrs: &StringMap<AttributeValue>) -> (r: Option<&AttributeValue>)
    ensures
        match r {
            Some(value) => tests_attribute(attrs@) == Some(*value),
            None => tests_attribute(attrs@) is None,
        },
{
    match attrs.get("testResults") {
        Some(value) => Some(value),
        None => attrs.get("tests"),
    }
}

/// Reads the files.
fn structured_files(attrs: &StringMap<AttributeValue>) -> (r: Result<StringMap<String>, DecodeError>)
    ensures
        match r {
            Ok(files) => files.wf() && decode_files(attrs@) == Ok::<_, DecodeError>(
                string_entries(files.entries()),
            ),
            Err(e) => decode_files(attrs@) == Err::<Seq<(Seq<char>, Seq<char>)>, _>(e),
        },
{
    match find_files(attrs) {
        None => Err(DecodeError::MissingField(Field::Attachments)),
        Some(value) => match value.as_s() {
            None => Err(DecodeError::TypeMismatch(Field::Attachments)),
            Some(text) => match parse_files(text) {
                Some(files) => Ok(files),
                None => Err(DecodeError::MalformedPayload(Field::Attachments)),
            },
        },
    }
}

/// Reads the tests.
fn structured_tests(attrs: &StringMap<AttributeValue>) -> (r: Result<Vec<Test>, DecodeError>)
    ensures
        match r {
            Ok(tests) => decode_tests(attrs@) == Ok::<_, DecodeError>(tests_view(tests@)),
            Err(e) => decode_tests(attrs@) == Err::<Seq<TestView>, _>(e),
        },
{
    match find_tests(attrs) {
        None => {
            let legacy = !attrs.contains_key("attachments") && !attrs.contains_key("files")
                && attrs.contains_key("payload");
            if legacy {
                let tests: Vec<Test> = Vec::new();
                proof {
                    assert(tests_view(tests@) =~= Seq::empty());
                }
                Ok(tests)
            } else {
                Err(DecodeError::MissingField(Field::TestResults))
            }
        },
        Some(value) => match value.as_s() {
            None => Err(DecodeError::TypeMismatch(Field::TestResults)),
            Some(text) => match parse_tests(text) {
                Some(tests) => Ok(tests),
                None => Err(DecodeError::MalformedPayload(Field::TestResults)),
            },
        },
    }
}

/// Reads a test run from the attributes that the store holds for it.
///
/// `id`, `language` and `status` are strings. The files and the tests are
/// strings that hold JSON documents; the attributes `files`, `payload` and
/// `tests` of earlier forms are read where `attachments` and `testResults`
/// are absent.
pub fn decode(attrs: &StringMap<AttributeValue>) -> (r: Result<TestRun, DecodeError>)
    ensures
        match r {
            Ok(run) => run@.wf() && decode_spec(attrs@) == Ok::<_, DecodeError>(run@),
            Err(e) => decode_spec(attrs@) == Err::<TestRunView, _>(e),
        },
{
    let files = match structured_files(attrs) {
        Ok(files) => files,
        Err(e) => {
            return Err(e);
        },
    };
    let tests = match structured_tests(attrs) {
        Ok(tests) => tests,
        Err(e) => {
            return Err(e);
        },
    };
    let id = match scalar(attrs, Field::Id) {
        Ok(text) => text,
        Err(e) => {
            return Err(e);
        },
    };
    let language = match scalar(attrs, Field::Language) {
        Ok(text) => text,
        Err(e) => {
            return Err(e);
        },
    };
    let status = match scalar(attrs, Field::Status) {
        Ok(text) => text,
        Err(e) => {
            return Err(e);
        },
    };
    proof {
        lemma_string_entries_distinct(files.entries());
    }
    Ok(TestRun { id, files, language, status, tests })
}

/// The attributes are those that stand for `run`: the three scalar fields
/// as strings, and the files and the tests as the texts that `serde_json`
/// writes for their documents.
pub open spec fn encodes(attrs: Map<Seq<char>, AttributeValue>, run: TestRunView) -> bool {
    &&& attrs.dom() =~= set!["id"@, "language"@, "status"@, "attachments"@, "testResults"@]
    &&& attrs["id"@].text() == Some(run.id)
    &&& attrs["language"@].text() == Some(run.language)
    &&& attrs["status"@].text() == Some(run.status)
    &&& attrs["attachments"@].text() == Some(json_text(files_json(run.files)))
    &&& attrs["testResults"@].text() == Some(json_text(tests_json(run.tests)))
}

/// The five attribute names differ from each other.
proof fn lemma_names_differ()
    ensures
        "id"@ != "language"@,
        "id"@ != "status"@,
        "id"@ != "attachments"@,
        "id"@ != "testResults"@,
        "language"@ != "status"@,
        "language"@ != "attachments"@,
        "language"@ != "testResults"@,
        "status"@ != "attachments"@,
        "status"@ != "testResults"@,
        "attachments"@ != "testResults"@,
{
    reveal_strlit("id");
    reveal_strlit("language");
    reveal_strlit("status");
    reveal_strlit("attachments");
    reveal_strlit("testResults");
    assert("id"@.len() == 2);
    assert("language"@.len() == 8);
    assert("status"@.len() == 6);
    assert("attachments"@.len() == 11);
    assert("testResults"@.len() == 11);
    assert("attachments"@[0] != "testResults"@[0]);
}

/// Writes a test run as the attributes that the store holds for it.
pub fn encode(run: &TestRun) -> (attrs: StringMap<AttributeValue>)
    ensures
        attrs.wf(),
        encodes(attrs@, run@),
{
    let files = files_to_json(&run.files).to_text();
    let tests = tests_to_json(&run.tests).to_text();
    let mut attrs: StringMap<AttributeValue> = StringMap::new();
    attrs.insert("id".to_owned(), AttributeValue::S(run.id.clone()));
    attrs.insert("language".to_owned(), AttributeValue::S(run.language.clone()));
    attrs.insert("status".to_owned(), AttributeValue::S(run.status.clone()));
    attrs.insert("attachments".to_owned(), AttributeValue::S(files));
    attrs.insert("testResults".to_owned(), AttributeValue::S(tests));
    proof {
        lemma_names_differ();
    }
    attrs
}

/// Decoding undoes encoding: from attributes that stand for a test run
/// without a repeated file name, `decode` reads that test run, provided that
/// `serde_json` reads back the two documents that it wrote.
pub proof fn lemma_decode_encode(attrs: Map<Seq<char>, AttributeValue>, run: TestRunView)
    requires
        run.wf(),
        encodes(attrs, run),
    ensures
        reads_back(files_json(run.files)) && reads_back(tests_json(run.tests)) ==> decode_spec(
            attrs,
        ) == Ok::<_, DecodeError>(run),
{
    lemma_names_differ();
    lemma_files_read_back(run.files);
    lemma_tests_read_back(run.tests);
    assert(attrs.contains_key("id"@));
    assert(attrs.contains_key("language"@));
    assert(attrs.contains_key("status"@));
    assert(attrs.contains_key("attachments"@));
    assert(attrs.contains_key("testResults"@));
}

} // verus!
