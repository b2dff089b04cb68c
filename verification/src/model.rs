//! The domain: test runs, their test cases, and the events that report a
//! change of a test run.

use crate::string_map::{names_distinct, StringMap};
use vstd::prelude::*;

verus! {

/// One test case of a test run.
#[derive(Clone, Debug, Default)]
pub struct Test {
    pub message: String,
    pub name: String,
    pub status: String,
    pub actual_output: String,
    pub expected_output: String,
}

/// The mathematical value of a [`Test`].
pub struct TestView {
    pub message: Seq<char>,
    pub name: Seq<char>,
    pub status: Seq<char>,
    pub actual_output: Seq<char>,
    pub expected_output: Seq<char>,
}

impl View for Test {
    type V = TestView;

    open spec fn view(&self) -> TestView {
        TestView {
            message: self.message@,
            name: self.name@,
            status: self.status@,
            actual_output: self.actual_output@,
            expected_output: self.expected_output@,
        }
    }
}

/// The views of a sequence of test cases.
pub open spec fn tests_view(tests: Seq<Test>) -> Seq<TestView> {
    Seq::new(tests.len(), |i: int| tests[i]@)
}

/// The entries of a map of strings, each value by its characters.
pub open spec fn string_entries(entries: Seq<(Seq<char>, String)>) -> Seq<(Seq<char>, Seq<char>)> {
    Seq::new(entries.len(), |i: int| (entries[i].0, entries[i].1@))
}

/// A test run: the submitted files by name, and the outcome of each test.
#[derive(Clone, Debug)]
pub struct TestRun {
    pub id: String,
    pub files: StringMap<String>,
    pub language: String,
    pub status: String,
    pub tests: Vec<Test>,
}

/// The mathematical value of a [`TestRun`]. The files are the entries of an
/// ordered map: each a name and a content, in the order of insertion.
pub struct TestRunView {
    pub id: Seq<char>,
    pub files: Seq<(Seq<char>, Seq<char>)>,
    pub language: Seq<char>,
    pub status: Seq<char>,
    pub tests: Seq<TestView>,
}

impl View for TestRun {
    type V = TestRunView;

    open spec fn view(&self) -> TestRunView {
        TestRunView {
            id: self.id@,
            files: string_entries(self.files.entries()),
            language: self.language@,
            status: self.status@,
            tests: tests_view(self.tests@),
        }
    }
}

impl TestRunView {
    /// No file name occurs twice.
    pub open spec fn wf(self) -> bool {
        names_distinct(self.files)
    }
}

/// Taking the characters of the values keeps the names, and so their
/// distinctness.
pub proof fn lemma_string_entries_distinct(entries: Seq<(Seq<char>, String)>)
    ensures
        names_distinct(entries) <==> names_distinct(string_entries(entries)),
{
    let a = string_entries(entries);
    assert forall|i: int| 0 <= i < a.len() implies #[trigger] a[i].0 == entries[i].0 by {}
    if names_distinct(entries) {
        assert forall|i: int, j: int| 0 <= i < j < a.len() implies a[i].0 != a[j].0 by {
            assert(entries[i].0 != entries[j].0);
        }
    }
    if names_distinct(a) {
        assert forall|i: int, j: int| 0 <= i < j < entries.len() implies entries[i].0
            != entries[j].0 by {
            assert(a[i].0 != a[j].0);
        }
    }
}

/// A change of a test run.
#[derive(Clone, Debug)]
pub enum Event {
    Created { testrun: TestRun },
    Updated { old: TestRun, new: TestRun },
    Deleted { testrun: TestRun },
}

/// The mathematical value of an [`Event`].
pub enum EventView {
    Created { testrun: TestRunView },
    Updated { old: TestRunView, new: TestRunView },
    Deleted { testrun: TestRunView },
}

impl View for Event {
    type V = EventView;

    open spec fn view(&self) -> EventView {
        match self {
            Event::Created { testrun } => EventView::Created { testrun: testrun@ },
            Event::Updated { old, new } => EventView::Updated { old: old@, new: new@ },
            Event::Deleted { testrun } => EventView::Deleted { testrun: testrun@ },
        }
    }
}

impl EventView {
    /// No test run of the event holds a file name twice.
    pub open spec fn wf(self) -> bool {
        match self {
            EventView::Created { testrun } => testrun.wf(),
            EventView::Updated { old, new } => old.wf() && new.wf(),
            EventView::Deleted { testrun } => testrun.wf(),
        }
    }

    /// The id of the test run that the event is about; for an update, that of
    /// the new image.
    pub open spec fn id(self) -> Seq<char> {
        match self {
            EventView::Created { testrun } => testrun.id,
            EventView::Updated { old, new } => new.id,
            EventView::Deleted { testrun } => testrun.id,
        }
    }
}

impl Event {
    /// The id of the test run that the event is about; for an update, that of
    /// the new image.
    pub fn id(&self) -> (id: &str)
        ensures
            id@ == self@.id(),
    {
        match self {
            Event::Created { testrun } => testrun.id.as_str(),
            Event::Updated { new, .. } => new.id.as_str(),
            Event::Deleted { testrun } => testrun.id.as_str(),
        }
    }
}

} // verus!
