use testrunner::attribute::AttributeValue;
use testrunner::codec::{decode, encode, parse_files, parse_tests, DecodeError, Field};
use testrunner::model::{Test, TestRun};
use testrunner::string_map::StringMap;

fn s(text: &str) -> AttributeValue {
    AttributeValue::S(text.to_string())
}

fn attributes(pairs: &[(&str, AttributeValue)]) -> StringMap<AttributeValue> {
    let mut map = StringMap::new();
    for (name, value) in pairs {
        let copy = match value {
            AttributeValue::S(text) => AttributeValue::S(text.clone()),
            AttributeValue::N(text) => AttributeValue::N(text.clone()),
            AttributeValue::Bool(b) => AttributeValue::Bool(*b),
            _ => AttributeValue::Null(true),
        };
        map.insert(name.to_string(), copy);
    }
    map
}

fn sample() -> StringMap<AttributeValue> {
    attributes(&[
        ("id", s("abc")),
        ("language", s("python")),
        ("status", s("queued")),
        ("attachments", s("{\"main.py\":\"print(1)\"}")),
        ("testResults", s("[]")),
    ])
}

fn sample_run() -> TestRun {
    let mut files = StringMap::new();
    files.insert("main.py".to_string(), "print(1)".to_string());
    files.insert("util.py".to_string(), "x = \"a\\b\"\n".to_string());
    TestRun {
        id: "run-1".to_string(),
        files,
        language: "python".to_string(),
        status: "done".to_string(),
        tests: vec![
            Test {
                message: "ok".to_string(),
                name: "adds".to_string(),
                status: "passed".to_string(),
                actual_output: "2".to_string(),
                expected_output: "2".to_string(),
            },
            Test {
                message: "wrong \u{e9}".to_string(),
                name: "subtracts".to_string(),
                status: "failed".to_string(),
                actual_output: "1".to_string(),
                expected_output: "0".to_string(),
            },
        ],
    }
}

fn same_run(a: &TestRun, b: &TestRun) -> bool {
    if a.id != b.id || a.language != b.language || a.status != b.status {
        return false;
    }
    if a.files.len() != b.files.len() || a.tests.len() != b.tests.len() {
        return false;
    }
    for i in 0..a.files.len() {
        if a.files.name_at(i) != b.files.name_at(i) || a.files.value_at(i) != b.files.value_at(i) {
            return false;
        }
    }
    for (x, y) in a.tests.iter().zip(b.tests.iter()) {
        if x.message != y.message
            || x.name != y.name
            || x.status != y.status
            || x.actual_output != y.actual_output
            || x.expected_output != y.expected_output
        {
            return false;
        }
    }
    true
}

#[test]
fn decode_reads_the_canonical_form() {
    let run = decode(&sample()).unwrap();
    assert_eq!(run.id, "abc");
    assert_eq!(run.language, "python");
    assert_eq!(run.status, "queued");
    assert_eq!(run.files.len(), 1);
    assert_eq!(run.files.get("main.py"), Some(&"print(1)".to_string()));
    assert!(run.tests.is_empty());
}

#[test]
fn decode_reads_tests() {
    let attrs = attributes(&[
        ("id", s("abc")),
        ("language", s("python")),
        ("status", s("done")),
        ("attachments", s("{}")),
        (
            "testResults",
            s("[{\"message\":\"m\",\"name\":\"n\",\"status\":\"s\",\"actualOutput\":\"a\",\"expectedOutput\":\"e\",\"extra\":[1,2]}]"),
        ),
    ]);
    let run = decode(&attrs).unwrap();
    assert_eq!(run.files.len(), 0);
    assert_eq!(run.tests.len(), 1);
    assert_eq!(run.tests[0].message, "m");
    assert_eq!(run.tests[0].name, "n");
    assert_eq!(run.tests[0].status, "s");
    assert_eq!(run.tests[0].actual_output, "a");
    assert_eq!(run.tests[0].expected_output, "e");
}

#[test]
fn decode_reads_the_earlier_names() {
    let attrs = attributes(&[
        ("id", s("abc")),
        ("language", s("rust")),
        ("status", s("queued")),
        ("files", s("{\"main.rs\":\"fn main() {}\"}")),
        ("tests", s("[]")),
    ]);
    let run = decode(&attrs).unwrap();
    assert_eq!(run.files.get("main.rs"), Some(&"fn main() {}".to_string()));
    assert!(run.tests.is_empty());
}

#[test]
fn decode_reads_the_payload_form() {
    let attrs = attributes(&[
        ("id", s("abc")),
        ("language", s("rust")),
        ("payload", s("{\"main.rs\":\"fn main() {}\"}")),
        ("status", s("queued")),
    ]);
    let run = decode(&attrs).unwrap();
    assert_eq!(run.id, "abc");
    assert_eq!(run.files.get("main.rs"), Some(&"fn main() {}".to_string()));
    assert!(run.tests.is_empty());
}

#[test]
fn decode_prefers_the_canonical_names() {
    let attrs = attributes(&[
        ("id", s("abc")),
        ("language", s("rust")),
        ("status", s("queued")),
        ("payload", s("{\"c\":\"3\"}")),
        ("files", s("{\"b\":\"2\"}")),
        ("attachments", s("{\"a\":\"1\"}")),
        ("tests", s("not json")),
        ("testResults", s("[]")),
    ]);
    let run = decode(&attrs).unwrap();
    assert_eq!(run.files.len(), 1);
    assert_eq!(run.files.get("a"), Some(&"1".to_string()));
}

#[test]
fn decode_reports_a_missing_field() {
    for (field, name) in [
        (Field::Id, "id"),
        (Field::Language, "language"),
        (Field::Status, "status"),
        (Field::Attachments, "attachments"),
        (Field::TestResults, "testResults"),
    ] {
        let mut attrs = StringMap::new();
        let full = sample();
        for i in 0..full.len() {
            if full.name_at(i) != name {
                attrs.insert(full.name_at(i).clone(), s(full.value_at(i).as_s().unwrap()));
            }
        }
        assert_eq!(decode(&attrs).err(), Some(DecodeError::MissingField(field)));
        assert_eq!(field.name(), name);
    }
}

#[test]
fn decode_reports_a_type_mismatch() {
    for (field, name) in [
        (Field::Id, "id"),
        (Field::Language, "language"),
        (Field::Status, "status"),
        (Field::Attachments, "attachments"),
        (Field::TestResults, "testResults"),
    ] {
        let mut attrs = sample();
        attrs.insert(name.to_string(), AttributeValue::N("1".to_string()));
        assert_eq!(decode(&attrs).err(), Some(DecodeError::TypeMismatch(field)));
    }
}

#[test]
fn decode_reports_a_malformed_payload() {
    for text in ["", "{", "[]", "{\"a\":1}", "{\"a\":{\"b\":\"c\"}}", "null", "\"x\""] {
        let mut attrs = sample();
        attrs.insert("attachments".to_string(), s(text));
        assert_eq!(
            decode(&attrs).err(),
            Some(DecodeError::MalformedPayload(Field::Attachments)),
            "{}",
            text
        );
    }
    for text in [
        "",
        "{}",
        "[1]",
        "[{\"name\":\"n\"}]",
        "[[\"m\",\"n\",\"s\",\"a\",\"e\"]]",
        "[{\"message\":\"m\",\"name\":\"n\",\"status\":\"s\",\"actualOutput\":1,\"expectedOutput\":\"e\"}]",
        "[{\"message\":\"m\",\"name\":\"n\",\"status\":\"s\",\"actual_output\":\"a\",\"expectedOutput\":\"e\"}]",
    ] {
        let mut attrs = sample();
        attrs.insert("testResults".to_string(), s(text));
        assert_eq!(
            decode(&attrs).err(),
            Some(DecodeError::MalformedPayload(Field::TestResults)),
            "{}",
            text
        );
    }
}

#[test]
fn decode_reports_the_first_fault() {
    let attrs = attributes(&[("attachments", s("{")), ("testResults", AttributeValue::Bool(true))]);
    assert_eq!(decode(&attrs).err(), Some(DecodeError::MalformedPayload(Field::Attachments)));
    let attrs = attributes(&[("attachments", s("{}")), ("testResults", AttributeValue::Bool(true))]);
    assert_eq!(decode(&attrs).err(), Some(DecodeError::TypeMismatch(Field::TestResults)));
    let attrs = attributes(&[("attachments", s("{}")), ("testResults", s("[]")), ("status", s("x"))]);
    assert_eq!(decode(&attrs).err(), Some(DecodeError::MissingField(Field::Id)));
    let empty: StringMap<AttributeValue> = StringMap::new();
    assert_eq!(decode(&empty).err(), Some(DecodeError::MissingField(Field::Attachments)));
}

#[test]
fn decode_keeps_the_last_of_a_repeated_file() {
    let mut attrs = sample();
    attrs.insert("attachments".to_string(), s("{\"a\":\"1\",\"b\":\"2\",\"a\":\"3\"}"));
    let run = decode(&attrs).unwrap();
    assert_eq!(run.files.len(), 2);
    assert_eq!(run.files.get("a"), Some(&"3".to_string()));
    assert_eq!(run.files.name_at(0), "a");
    assert_eq!(run.files.name_at(1), "b");
}

#[test]
fn encode_writes_five_string_attributes() {
    let attrs = encode(&sample_run());
    assert_eq!(attrs.len(), 5);
    assert_eq!(attrs.get("id").unwrap().as_s(), Some("run-1"));
    assert_eq!(attrs.get("language").unwrap().as_s(), Some("python"));
    assert_eq!(attrs.get("status").unwrap().as_s(), Some("done"));
    assert_eq!(
        attrs.get("attachments").unwrap().as_s(),
        Some("{\"main.py\":\"print(1)\",\"util.py\":\"x = \\\"a\\\\b\\\"\\n\"}")
    );
    assert_eq!(
        attrs.get("testResults").unwrap().as_s(),
        Some("[{\"message\":\"ok\",\"name\":\"adds\",\"status\":\"passed\",\"actualOutput\":\"2\",\"expectedOutput\":\"2\"},{\"message\":\"wrong \u{e9}\",\"name\":\"subtracts\",\"status\":\"failed\",\"actualOutput\":\"1\",\"expectedOutput\":\"0\"}]")
    );
}

#[test]
fn decode_undoes_encode() {
    let run = sample_run();
    let back = decode(&encode(&run)).unwrap();
    assert!(same_run(&run, &back));
    let empty = TestRun {
        id: String::new(),
        files: StringMap::new(),
        language: String::new(),
        status: String::new(),
        tests: Vec::new(),
    };
    let back = decode(&encode(&empty)).unwrap();
    assert!(same_run(&empty, &back));
}

#[test]
fn decode_undoes_encode_for_unsorted_file_names() {
    let mut run = sample_run();
    run.files.insert("a.py".to_string(), "last but smallest".to_string());
    run.files.insert("main.py".to_string(), "replaced in place".to_string());
    let back = decode(&encode(&run)).unwrap();
    assert_eq!(back.files.name_at(0), "main.py");
    assert_eq!(back.files.name_at(2), "a.py");
    assert!(same_run(&run, &back));
}

#[test]
fn parse_files_and_tests_read_documents() {
    let files = parse_files("{\"a\":\"1\",\"b\":\"2\"}").unwrap();
    assert_eq!(files.len(), 2);
    assert_eq!(files.get("b"), Some(&"2".to_string()));
    assert!(parse_files("{\"a\":null}").is_none());
    assert!(parse_files("{\"a\":\"1\"} x").is_none());
    let tests = parse_tests("[]").unwrap();
    assert!(tests.is_empty());
    assert!(parse_tests("[{}]").is_none());
}
