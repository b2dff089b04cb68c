//! The JSON form of the domain types: which document stands for a value, and
//! which value a document stands for.

use crate::json::{
    items_view, lemma_array_view, lemma_object_view, member, member_of, members_view, Json,
    JsonValue,
};
use crate::model::{
    lemma_string_entries_distinct, string_entries, tests_view, Event, EventView, Test, TestRun,
    TestRunView, TestView,
};
use crate::string_map::{
    first_index, has_name, is_first, lemma_first_index, lemma_first_unique, names_distinct, put,
    StringMap,
};
use vstd::prelude::*;

verus! {

/// The text of a member, where the member is there and is a string.
pub open spec fn text_member(members: Seq<(Seq<char>, JsonValue)>, name: Seq<char>) -> Option<
    Seq<char>,
> {
    match member_of(members, name) {
        Some(JsonValue::Str(s)) => Some(s),
        _ => None,
    }
}

/// The document that stands for a test case: an object of its five strings,
/// under their camel-case names.
pub open spec fn test_json(test: TestView) -> JsonValue {
    JsonValue::Object(
        seq![
            ("message"@, JsonValue::Str(test.message)),
            ("name"@, JsonValue::Str(test.name)),
            ("status"@, JsonValue::Str(test.status)),
            ("actualOutput"@, JsonValue::Str(test.actual_output)),
            ("expectedOutput"@, JsonValue::Str(test.expected_output)),
        ],
    )
}

/// The test case that a document stands for: the document is an object in
/// which each of the five names is bound to a string. Other members are
/// passed over.
pub open spec fn json_test(document: JsonValue) -> Option<TestView> {
    match document {
        JsonValue::Object(members) => {
            if text_member(members, "message"@) is Some && text_member(members, "name"@) is Some
                && text_member(members, "status"@) is Some && text_member(
                members,
                "actualOutput"@,
            ) is Some && text_member(members, "expectedOutput"@) is Some {
                Some(
                    TestView {
                        message: text_member(members, "message"@).unwrap(),
                        name: text_member(members, "name"@).unwrap(),
                        status: text_member(members, "status"@).unwrap(),
                        actual_output: text_member(members, "actualOutput"@).unwrap(),
                        expected_output: text_member(members, "expectedOutput"@).unwrap(),
                    },
                )
            } else {
                None
            }
        },
        _ => None,
    }
}

/// Reads a member that must be a string.
fn text_of<'a>(members: &'a Vec<(String, Json)>, name: &str) -> (r: Option<&'a String>)
    ensures
        match r {
            Some(s) => text_member(members_view(members@), name@) == Some(s@),
            None => text_member(members_view(members@), name@) is None,
        },
{
    match member(members, name) {
        Some(Json::Str(s)) => Some(s),
        _ => None,
    }
}

impl Test {
    /// The document that stands for this test case.
    pub fn to_json(&self) -> (document: Json)
        ensures
            document@ == test_json(self@),
    {
        let mut members: Vec<(String, Json)> = Vec::new();
        members.push(("message".to_owned(), Json::Str(self.message.clone())));
        members.push(("name".to_owned(), Json::Str(self.name.clone())));
        members.push(("status".to_owned(), Json::Str(self.status.clone())));
        members.push(("actualOutput".to_owned(), Json::Str(self.actual_output.clone())));
        members.push(("expectedOutput".to_owned(), Json::Str(self.expected_output.clone())));
        proof {
            lemma_object_view(members);
            assert(members_view(members@) =~= test_json(self@)->Object_0);
        }
        Json::Object(members)
    }

    /// The test case that `document` stands for, if it stands for one.
    pub fn from_json(document: &Json) -> (r: Option<Test>)
        ensures
            match r {
                Some(test) => json_test(document@) == Some(test@),
                None => json_test(document@) is None,
            },
    {
        match document {
            Json::Object(members) => {
                proof {
                    lemma_object_view(*members);
                }
                let message = text_of(members, "message");
                let name = text_of(members, "name");
                let status = text_of(members, "status");
                let actual_output = text_of(members, "actualOutput");
                let expected_output = text_of(members, "expectedOutput");
                match (message, name, status, actual_output, expected_output) {
                    (Some(m), Some(n), Some(s), Some(a), Some(e)) => Some(
                        Test {
                            message: m.clone(),
                            name: n.clone(),
                            status: s.clone(),
                            actual_output: a.clone(),
                            expected_output: e.clone(),
                        },
                    ),
                    _ => None,
                }
            },
            _ => None,
        }
    }
}

/// A test case is read back from the document that stands for it.
pub proof fn lemma_test_reads_back(test: TestView)
    ensures
        json_test(test_json(test)) == Some(test),
{
    reveal_strlit("message");
    reveal_strlit("name");
    reveal_strlit("status");
    reveal_strlit("actualOutput");
    reveal_strlit("expectedOutput");
    let members = test_json(test)->Object_0;
    assert(members[0].0 == "message"@);
    assert(members[1].0 == "name"@);
    assert(members[2].0 == "status"@);
    assert(members[3].0 == "actualOutput"@);
    assert(members[4].0 == "expectedOutput"@);
    lemma_member_at(members, 0);
    lemma_member_at(members, 1);
    lemma_member_at(members, 2);
    lemma_member_at(members, 3);
    lemma_member_at(members, 4);
}

/// Where no earlier member has the name of the member at `i`, looking that
/// name up gives the member at `i`.
pub proof fn lemma_member_at(members: Seq<(Seq<char>, JsonValue)>, i: int)
    requires
        0 <= i < members.len(),
        forall|j: int| 0 <= j < i ==> #[trigger] members[j].0 != members[i].0,
    ensures
        member_of(members, members[i].0) == Some(members[i].1),
{
    let name = members[i].0;
    assert(is_first(members, name, i));
    assert(has_name(members, name));
    lemma_first_index(members, name);
    lemma_first_unique(members, name, i, first_index(members, name));
}

/// The document that stands for a list of test cases: the array of their
/// documents.
pub open spec fn tests_json(tests: Seq<TestView>) -> JsonValue {
    JsonValue::Array(Seq::new(tests.len(), |i: int| test_json(tests[i])))
}

/// The list of test cases that a document stands for: the document is an
/// array, and each of its items stands for a test case.
pub open spec fn json_tests(document: JsonValue) -> Option<Seq<TestView>> {
    match document {
        JsonValue::Array(items) => {
            if forall|i: int| 0 <= i < items.len() ==> (#[trigger] json_test(items[i])) is Some {
                Some(Seq::new(items.len(), |i: int| json_test(items[i]).unwrap()))
            } else {
                None
            }
        },
        _ => None,
    }
}

/// A list of test cases is read back from the document that stands for it.
pub proof fn lemma_tests_read_back(tests: Seq<TestView>)
    ensures
        json_tests(tests_json(tests)) == Some(tests),
{
    let items = tests_json(tests)->Array_0;
    assert forall|i: int| 0 <= i < items.len() implies (#[trigger] json_test(items[i])) == Some(
        tests[i],
    ) by {
        lemma_test_reads_back(tests[i]);
    }
    assert(json_tests(tests_json(tests)).unwrap() =~= tests);
}

/// The document that stands for the tests of a test run.
pub fn tests_to_json(tests: &Vec<Test>) -> (document: Json)
    ensures
        document@ == tests_json(tests_view(tests@)),
{
    let mut items: Vec<Json> = Vec::new();
    let mut i: usize = 0;
    while i < tests.len()
        invariant
            i <= tests.len(),
            items@.len() == i,
            forall|j: int| 0 <= j < i ==> (#[trigger] items@[j])@ == test_json(tests@[j]@),
        decreases tests.len() - i,
    {
        items.push(tests[i].to_json());
        i += 1;
    }
    proof {
        lemma_array_view(items);
        assert(items_view(items@) =~= tests_json(tests_view(tests@))->Array_0);
    }
    Json::Array(items)
}

/// The list of test cases that `document` stands for, if it stands for one.
pub fn tests_from_json(document: &Json) -> (r: Option<Vec<Test>>)
    ensures
        match r {
            Some(tests) => json_tests(document@) == Some(tests_view(tests@)),
            None => json_tests(document@) is None,
        },
{
    match document {
        Json::Array(items) => {
            proof {
                lemma_array_view(*items);
            }
            let ghost values = items_view(items@);
            let mut tests: Vec<Test> = Vec::new();
            let mut i: usize = 0;
            while i < items.len()
                invariant
                    i <= items.len(),
                    values == items_view(items@),
                    document@ == JsonValue::Array(values),
                    tests@.len() == i,
                    forall|j: int|
                        0 <= j < i ==> (#[trigger] json_test(values[j])) == Some(tests@[j]@),
                decreases items.len() - i,
            {
                match Test::from_json(&items[i]) {
                    Some(test) => {
                        tests.push(test);
                    },
                    None => {
                        assert(json_test(values[i as int]) is None);
                        return None;
                    },
                }
                i += 1;
            }
            proof {
                assert(json_tests(document@).unwrap() =~= tests_view(tests@));
            }
            Some(tests)
        },
        _ => None,
    }
}

/// The document that stands for a map of strings: the object of its entries
/// in their order.
pub open spec fn files_json(entries: Seq<(Seq<char>, Seq<char>)>) -> JsonValue {
    JsonValue::Object(Seq::new(entries.len(), |i: int| (entries[i].0, JsonValue::Str(entries[i].1))))
}

/// The entries that the members of an object give where each of them is a
/// string: the members in their order, a repeated name keeping its first
/// place and its last value.
pub open spec fn string_members(members: Seq<(Seq<char>, JsonValue)>) -> Option<
    Seq<(Seq<char>, Seq<char>)>,
>
    decreases members.len(),
{
    if members.len() == 0 {
        Some(Seq::empty())
    } else {
        match (string_members(members.drop_last()), members.last().1) {
            (Some(entries), JsonValue::Str(s)) => Some(put(entries, members.last().0, s)),
            _ => None,
        }
    }
}

/// The map of strings that a document stands for: the document is an object
/// and each of its members is a string.
pub open spec fn json_files(document: JsonValue) -> Option<Seq<(Seq<char>, Seq<char>)>> {
    match document {
        JsonValue::Object(members) => string_members(members),
        _ => None,
    }
}

/// Where a part of the members fails, the whole fails.
pub proof fn lemma_string_members_prefix(members: Seq<(Seq<char>, JsonValue)>, n: int)
    requires
        0 <= n <= members.len(),
        string_members(members.take(n)) is None,
    ensures
        string_members(members) is None,
    decreases members.len(),
{
    if n < members.len() {
        assert(members.drop_last().take(n) =~= members.take(n));
        lemma_string_members_prefix(members.drop_last(), n);
    } else {
        assert(members.take(n) =~= members);
    }
}

/// Entries without a repeated name are read back from the document that
/// stands for them.
pub proof fn lemma_files_read_back(entries: Seq<(Seq<char>, Seq<char>)>)
    requires
        names_distinct(entries),
    ensures
        json_files(files_json(entries)) == Some(entries),
    decreases entries.len(),
{
    let members = files_json(entries)->Object_0;
    if entries.len() == 0 {
        assert(entries =~= Seq::empty());
    } else {
        let rest = entries.drop_last();
        lemma_files_read_back(rest);
        assert(files_json(rest)->Object_0 =~= members.drop_last());
        let last = entries.last();
        assert(members.last() == (last.0, JsonValue::Str(last.1)));
        if has_name(rest, last.0) {
            let k = choose|k: int| 0 <= k < rest.len() && #[trigger] rest[k].0 == last.0;
            assert(entries[k].0 == entries[entries.len() - 1].0);
        }
        assert(put(rest, last.0, last.1) =~= entries);
    }
}

/// Binding a name to a string commutes with taking the strings' characters.
proof fn lemma_string_entries_put(entries: Seq<(Seq<char>, String)>, name: Seq<char>, value: String)
    ensures
        string_entries(put(entries, name, value)) == put(string_entries(entries), name, value@),
{
    let a = string_entries(entries);
    assert forall|i: int| 0 <= i < a.len() implies #[trigger] a[i].0 == entries[i].0 by {}
    if has_name(entries, name) {
        let k = choose|k: int| 0 <= k < entries.len() && #[trigger] entries[k].0 == name;
        assert(a[k].0 == name);
        lemma_first_index(entries, name);
        lemma_first_index(a, name);
        let i = first_index(entries, name);
        let j = first_index(a, name);
        assert(entries[j].0 == name);
        assert forall|m: int| 0 <= m < j implies #[trigger] entries[m].0 != name by {
            assert(a[m].0 != name);
        }
        lemma_first_unique(entries, name, i, j);
        assert(string_entries(put(entries, name, value)) =~= put(a, name, value@));
    } else {
        if has_name(a, name) {
            let k = choose|k: int| 0 <= k < a.len() && #[trigger] a[k].0 == name;
            assert(entries[k].0 == name);
        }
        assert(string_entries(put(entries, name, value)) =~= put(a, name, value@));
    }
}

/// The document that stands for a map of strings.
pub fn files_to_json(files: &StringMap<String>) -> (document: Json)
    ensures
        document@ == files_json(string_entries(files.entries())),
{
    let mut members: Vec<(String, Json)> = Vec::new();
    let mut i: usize = 0;
    while i < files.len()
        invariant
            i <= files.entries().len(),
            members@.len() == i,
            forall|j: int|
                0 <= j < i ==> (#[trigger] members@[j]).0@ == files.entries()[j].0
                    && members@[j].1@ == JsonValue::Str(files.entries()[j].1@),
        decreases files.entries().len() - i,
    {
        members.push((files.name_at(i).clone(), Json::Str(files.value_at(i).clone())));
        i += 1;
    }
    proof {
        lemma_object_view(members);
        assert(members_view(members@) =~= files_json(string_entries(files.entries()))->Object_0);
    }
    Json::Object(members)
}

/// The map of strings that `document` stands for, if it stands for one.
pub fn files_from_json(document: &Json) -> (r: Option<StringMap<String>>)
    ensures
        match r {
            Some(files) => files.wf() && json_files(document@) == Some(
                string_entries(files.entries()),
            ),
            None => json_files(document@) is None,
        },
{
    match document {
        Json::Object(members) => {
            proof {
                lemma_object_view(*members);
            }
            let ghost values = members_view(members@);
            let mut files: StringMap<String> = StringMap::new();
            let mut i: usize = 0;
            proof {
                assert(values.take(0) =~= Seq::empty());
                assert(string_entries(files.entries()) =~= Seq::empty());
            }
            while i < members.len()
                invariant
                    i <= members.len(),
                    values == members_view(members@),
                    document@ == JsonValue::Object(values),
                    files.wf(),
                    string_members(values.take(i as int)) == Some(string_entries(files.entries())),
                decreases members.len() - i,
            {
                let ghost before = files.entries();
                proof {
                    assert(values.take(i + 1).drop_last() =~= values.take(i as int));
                    assert(values.take(i + 1).last() == values[i as int]);
                }
                match &members[i].1 {
                    Json::Str(s) => {
                        let value = s.clone();
                        proof {
                            lemma_string_entries_put(before, members@[i as int].0@, value);
                        }
                        files.insert(members[i].0.clone(), value);
                    },
                    _ => {
                        proof {
                            lemma_string_members_prefix(values, i + 1);
                        }
                        return None;
                    },
                }
                i += 1;
            }
            proof {
                assert(values.take(i as int) =~= values);
            }
            Some(files)
        },
        _ => None,
    }
}

/// The text that stands for a member of any kind in a map of strings: a
/// string stands for itself, a number for its digits, a boolean for `true`
/// or `false`, and everything else for the empty text.
pub open spec fn scalar_text(value: JsonValue) -> Seq<char> {
    match value {
        JsonValue::Str(s) => s,
        JsonValue::Number(n) => n,
        JsonValue::Bool(b) => if b {
            "true"@
        } else {
            "false"@
        },
        _ => Seq::empty(),
    }
}

/// The entries that the members of an object give when each is taken by its
/// [`scalar_text`]: the members in their order, a repeated name keeping its
/// first place and its last value.
pub open spec fn scalar_members(members: Seq<(Seq<char>, JsonValue)>) -> Seq<
    (Seq<char>, Seq<char>),
>
    decreases members.len(),
{
    if members.len() == 0 {
        Seq::empty()
    } else {
        put(
            scalar_members(members.drop_last()),
            members.last().0,
            scalar_text(members.last().1),
        )
    }
}

/// The text that stands for a member in a map of strings.
fn scalar_of(value: &Json) -> (text: String)
    ensures
        text@ == scalar_text(value@),
{
    match value {
        Json::Str(s) => s.clone(),
        Json::Number(n) => n.clone(),
        Json::Bool(b) => if *b {
            "true".to_owned()
        } else {
            "false".to_owned()
        },
        Json::Null => String::new(),
        Json::Array(items) => {
            proof {
                lemma_array_view(*items);
            }
            String::new()
        },
        Json::Object(members) => {
            proof {
                lemma_object_view(*members);
            }
            String::new()
        },
    }
}

/// Flattens the members of an object into a map of strings.
pub fn to_string_string_map(members: &Vec<(String, Json)>) -> (map: StringMap<String>)
    ensures
        map.wf(),
        string_entries(map.entries()) == scalar_members(members_view(members@)),
{
    let ghost values = members_view(members@);
    let mut map: StringMap<String> = StringMap::new();
    let mut i: usize = 0;
    proof {
        assert(values.take(0) =~= Seq::empty());
        assert(string_entries(map.entries()) =~= Seq::empty());
    }
    while i < members.len()
        invariant
            i <= members.len(),
            values == members_view(members@),
            map.wf(),
            string_entries(map.entries()) == scalar_members(values.take(i as int)),
        decreases members.len() - i,
    {
        let text = scalar_of(&members[i].1);
        proof {
            assert(values.take(i + 1).drop_last() =~= values.take(i as int));
            assert(values.take(i + 1).last() == values[i as int]);
            lemma_string_entries_put(map.entries(), members@[i as int].0@, text);
        }
        map.insert(members[i].0.clone(), text);
        i += 1;
    }
    proof {
        assert(values.take(i as int) =~= values);
    }
    map
}

/// The document that stands for a test run: an object of its five fields in
/// the order of their declaration.
pub open spec fn testrun_json(run: TestRunView) -> JsonValue {
    JsonValue::Object(
        seq![
            ("id"@, JsonValue::Str(run.id)),
            ("files"@, files_json(run.files)),
            ("language"@, JsonValue::Str(run.language)),
            ("status"@, JsonValue::Str(run.status)),
            ("tests"@, tests_json(run.tests)),
        ],
    )
}

/// The files that the member `files` of an object stands for.
pub open spec fn files_member(members: Seq<(Seq<char>, JsonValue)>) -> Option<
    Seq<(Seq<char>, Seq<char>)>,
> {
    match member_of(members, "files"@) {
        Some(document) => json_files(document),
        None => None,
    }
}

/// The tests that the member `tests` of an object stands for.
pub open spec fn tests_member(members: Seq<(Seq<char>, JsonValue)>) -> Option<Seq<TestView>> {
    match member_of(members, "tests"@) {
        Some(document) => json_tests(document),
        None => None,
    }
}

/// The test run that a document stands for: the document is an object in
/// which `id`, `language` and `status` are strings, `files` stands for a map
/// of strings and `tests` for a list of test cases. Other members are passed
/// over.
pub open spec fn json_testrun(document: JsonValue) -> Option<TestRunView> {
    match document {
        JsonValue::Object(members) => {
            if text_member(members, "id"@) is Some && files_member(members) is Some && text_member(
                members,
                "language"@,
            ) is Some && text_member(members, "status"@) is Some && tests_member(members) is Some {
                Some(
                    TestRunView {
                        id: text_member(members, "id"@).unwrap(),
                        files: files_member(members).unwrap(),
                        language: text_member(members, "language"@).unwrap(),
                        status: text_member(members, "status"@).unwrap(),
                        tests: tests_member(members).unwrap(),
                    },
                )
            } else {
                None
            }
        },
        _ => None,
    }
}

/// A test run without a repeated file name is read back from the document
/// that stands for it.
pub proof fn lemma_testrun_reads_back(run: TestRunView)
    requires
        run.wf(),
    ensures
        json_testrun(testrun_json(run)) == Some(run),
{
    reveal_strlit("id");
    reveal_strlit("files");
    reveal_strlit("language");
    reveal_strlit("status");
    reveal_strlit("tests");
    assert("files"@[0] != "tests"@[0]);
    let members = testrun_json(run)->Object_0;
    assert(members[0].0 == "id"@);
    assert(members[1].0 == "files"@);
    assert(members[2].0 == "language"@);
    assert(members[3].0 == "status"@);
    assert(members[4].0 == "tests"@);
    lemma_member_at(members, 0);
    lemma_member_at(members, 1);
    lemma_member_at(members, 2);
    lemma_member_at(members, 3);
    lemma_member_at(members, 4);
    lemma_files_read_back(run.files);
    lemma_tests_read_back(run.tests);
}

impl TestRun {
    /// The document that stands for this test run.
    pub fn to_json(&self) -> (document: Json)
        ensures
            document@ == testrun_json(self@),
    {
        let mut members: Vec<(String, Json)> = Vec::new();
        members.push(("id".to_owned(), Json::Str(self.id.clone())));
        members.push(("files".to_owned(), files_to_json(&self.files)));
        members.push(("language".to_owned(), Json::Str(self.language.clone())));
        members.push(("status".to_owned(), Json::Str(self.status.clone())));
        members.push(("tests".to_owned(), tests_to_json(&self.tests)));
        proof {
            lemma_object_view(members);
            assert(members_view(members@) =~= testrun_json(self@)->Object_0);
        }
        Json::Object(members)
    }

    /// The test run that `document` stands for, if it stands for one.
    pub fn from_json(document: &Json) -> (r: Option<TestRun>)
        ensures
            match r {
                Some(run) => run@.wf() && json_testrun(document@) == Some(run@),
                None => json_testrun(document@) is None,
            },
    {
        match document {
            Json::Object(members) => {
                proof {
                    lemma_object_view(*members);
                }
                let id = text_of(members, "id");
                let files = match member(members, "files") {
                    Some(inner) => files_from_json(inner),
                    None => None,
                };
                let language = text_of(members, "language");
                let status = text_of(members, "status");
                let tests = match member(members, "tests") {
                    Some(inner) => tests_from_json(inner),
                    None => None,
                };
                match (id, files, language, status, tests) {
                    (Some(i), Some(f), Some(l), Some(s), Some(t)) => {
                        proof {
                            lemma_string_entries_distinct(f.entries());
                        }
                        Some(
                            TestRun {
                                id: i.clone(),
                                files: f,
                                language: l.clone(),
                                status: s.clone(),
                                tests: t,
                            },
                        )
                    },
                    _ => None,
                }
            },
            _ => None,
        }
    }
}

/// The document that stands for an event: an object whose member `type`
/// names the kind of change, followed by the test runs under the names of
/// their fields.
pub open spec fn event_json(event: EventView) -> JsonValue {
    match event {
        EventView::Created { testrun } => JsonValue::Object(
            seq![("type"@, JsonValue::Str("Created"@)), ("testrun"@, testrun_json(testrun))],
        ),
        EventView::Updated { old, new } => JsonValue::Object(
            seq![
                ("type"@, JsonValue::Str("Updated"@)),
                ("old"@, testrun_json(old)),
                ("new"@, testrun_json(new)),
            ],
        ),
        EventView::Deleted { testrun } => JsonValue::Object(
            seq![("type"@, JsonValue::Str("Deleted"@)), ("testrun"@, testrun_json(testrun))],
        ),
    }
}

impl Event {
    /// The document that stands for this event.
    pub fn to_json(&self) -> (document: Json)
        ensures
            document@ == event_json(self@),
    {
        let mut members: Vec<(String, Json)> = Vec::new();
        match self {
            Event::Created { testrun } => {
                members.push(("type".to_owned(), Json::Str("Created".to_owned())));
                members.push(("testrun".to_owned(), testrun.to_json()));
            },
            Event::Updated { old, new } => {
                members.push(("type".to_owned(), Json::Str("Updated".to_owned())));
                members.push(("old".to_owned(), old.to_json()));
                members.push(("new".to_owned(), new.to_json()));
            },
            Event::Deleted { testrun } => {
                members.push(("type".to_owned(), Json::Str("Deleted".to_owned())));
                members.push(("testrun".to_owned(), testrun.to_json()));
            },
        }
        proof {
            lemma_object_view(members);
            assert(members_view(members@) =~= event_json(self@)->Object_0);
        }
        Json::Object(members)
    }
}

} // verus!
