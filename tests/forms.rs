use applet_framework::applet::{mount, Applet, HTMLForm, TestApplet, TestForm};
use applet_framework::builder::{Field, Form, FormData, Record, Submission, Value};
use applet_framework::dom::{AppletStyle, DomElement, Node, DEFAULT_STYLESHEET};
use applet_framework::form::{Checkbox, Number, ParseError, RawValue, Text};
use applet_framework::numeral::Numeral;

fn data(entries: &[(&str, &str)]) -> FormData {
    FormData {
        entries: entries.iter().map(|(n, v)| (n.to_string(), RawValue::Text(v.to_string()))).collect(),
    }
}

fn person_form() -> Form {
    Form::new(
        "person",
        vec![
            Field::Text(Text { form: "person", name: "name", label: "Name".to_string(), value: String::new() }),
            Field::Number(Number {
                form: "person",
                name: "age",
                label: "Age".to_string(),
                default: None,
                min: Numeral::parse("0"),
                max: None,
            }),
        ],
        "Save".to_string(),
    )
}

fn names(record: &Record) -> Vec<&'static str> {
    record.entries.iter().map(|(n, _)| *n).collect()
}

fn text_of(v: &Value) -> String {
    match v {
        Value::Text(s) => s.clone(),
        _ => panic!("not text"),
    }
}

#[test]
fn end_to_end_submission_calls_back_once() {
    let form = person_form();
    let mut calls: Vec<Record> = Vec::new();
    match form.submit(&data(&[("name", "Ada"), ("age", "36")])) {
        Ok(record) => calls.push(record),
        Err(e) => panic!("{}", e.message()),
    }
    assert_eq!(calls.len(), 1);
    let record = &calls[0];
    assert_eq!(names(record), vec!["name", "age"]);
    assert_eq!(text_of(record.get("name").unwrap()), "Ada");
    match record.get("age").unwrap() {
        Value::Number(n) => assert_eq!(n.as_str().parse::<f64>().unwrap(), 36.0),
        _ => panic!("age is not a number"),
    }
}

#[test]
fn end_to_end_submission_rejects_non_number() {
    let form = person_form();
    let mut calls = 0;
    let outcome = form.submit(&data(&[("name", "Ada"), ("age", "old")]));
    if outcome.is_ok() {
        calls += 1;
    }
    assert_eq!(calls, 0);
    let err = outcome.err().unwrap();
    assert_eq!(err, ParseError::InvalidNumber);
    assert!(err.message().contains("not a number"));
}

#[test]
fn first_failure_in_declared_order_wins() {
    let form = person_form();
    let outcome = form.submit(&FormData { entries: vec![("age".to_string(), RawValue::Text("x".to_string()))] });
    assert_eq!(outcome.err(), Some(ParseError::InvalidText));
}

#[test]
fn first_entry_under_a_name_is_used() {
    let d = data(&[("name", "first"), ("name", "second"), ("age", "1")]);
    assert!(matches!(d.get("name"), Some(RawValue::Text(s)) if s == "first"));
    assert!(d.get("missing").is_none());
    let record = person_form().submit(&d).ok().unwrap();
    assert_eq!(text_of(record.get("name").unwrap()), "first");
}

#[test]
fn absent_checkbox_is_false_in_record() {
    let form = Form::new(
        "prefs",
        vec![Field::Checkbox(Checkbox { form: "prefs", name: "news", label: "News".to_string(), default: false })],
        "Go".to_string(),
    );
    let record = form.submit(&FormData { entries: vec![] }).ok().unwrap();
    assert!(matches!(record.get("news"), Some(Value::Bool(false))));
    let record = form.submit(&data(&[("news", "on")])).ok().unwrap();
    assert!(matches!(record.get("news"), Some(Value::Bool(true))));
}

#[test]
fn record_keeps_declared_order_whatever_completes_first() {
    let a = Field::Text(Text { form: "f", name: "a", label: "A".to_string(), value: String::new() });
    let b = Field::Text(Text { form: "f", name: "b", label: "B".to_string(), value: String::new() });
    let c = Field::Text(Text { form: "f", name: "c", label: "C".to_string(), value: String::new() });
    let form = Form::new("f", vec![a, b, c], "Go".to_string());
    let raw = data(&[("a", "1"), ("b", "2"), ("c", "3")]);
    for order in [[2usize, 0, 1], [1, 2, 0], [0, 1, 2], [2, 1, 0]] {
        let mut submission = Submission::new(3);
        for &i in order.iter() {
            let field = &form.fields[i];
            let value = raw.get(field.name()).unwrap();
            submission.complete(i, field.parse(value));
        }
        let record = submission.finish(&form.names()).unwrap().ok().unwrap();
        assert_eq!(names(&record), vec!["a", "b", "c"]);
        let values: Vec<String> = record.entries.iter().map(|(_, v)| text_of(v)).collect();
        assert_eq!(values, vec!["1", "2", "3"]);
    }
}

#[test]
fn unfinished_submission_has_no_outcome() {
    let mut submission = Submission::new(2);
    submission.complete(1, Ok(Value::Bool(true)));
    submission.complete(5, Ok(Value::Bool(true)));
    assert!(submission.finish(&vec!["a", "b"]).is_none());
}

#[test]
fn form_renders_fields_in_order_then_submit() {
    let form = person_form();
    let nodes = form.to_nodes();
    assert_eq!(nodes.len(), 1);
    let f = &nodes[0];
    assert_eq!(f.tag, "form");
    let attrs: Vec<(String, String)> = f.attributes.iter().map(|a| (a.name.clone(), a.value.clone())).collect();
    assert_eq!(attrs, vec![("id".to_string(), "person".to_string()), ("onsubmit".to_string(), "return false;".to_string())]);
    assert_eq!(f.children.len(), 3);
    assert_eq!(f.children[0].children[1].attributes[2].value, "name");
    assert_eq!(f.children[1].children[1].attributes[0].value, "number");
    assert_eq!(f.children[2].children[0].attributes[0].value, "submit");
    assert_eq!(f.children[2].children[0].attributes[2].value, "Save");
}

#[test]
fn style_nodes() {
    assert_eq!(AppletStyle::NONE.to_nodes().len(), 0);
    assert_eq!(AppletStyle::NONE.as_str(), "");
    let d = AppletStyle::DEFAULT.to_nodes();
    assert_eq!(d.len(), 1);
    assert_eq!(d[0].tag, "style");
    assert_eq!(d[0].text.as_deref(), Some(DEFAULT_STYLESHEET));
    assert_eq!(AppletStyle::String("p { }".to_string()).as_str(), "p { }");
    assert_eq!(AppletStyle::IncludeFile("a { }").to_nodes()[0].text.as_deref(), Some("a { }"));
}

fn same_tree(a: &Node, b: &Node) -> bool {
    a.tag == b.tag
        && a.text == b.text
        && a.attributes.len() == b.attributes.len()
        && a.attributes.iter().zip(&b.attributes).all(|(x, y)| x.name == y.name && x.value == y.value)
        && a.children.len() == b.children.len()
        && a.children.iter().zip(&b.children).all(|(x, y)| same_tree(x, y))
}

#[test]
fn mounting_twice_gives_independent_subtrees() {
    let applet = TestApplet::new();
    let mut first = mount(&applet.style(), &applet.content());
    let second = mount(&applet.style(), &applet.content());
    assert_eq!(first.len(), 2);
    assert_eq!(first[0].tag, "style");
    assert_eq!(first[1].tag, "form");
    assert!(first.iter().zip(&second).all(|(a, b)| same_tree(a, b)));
    first[1].children.clear();
    first[1].tag = "changed".to_string();
    assert_eq!(second[1].tag, "form");
    assert_eq!(second[1].children.len(), 3);
}

#[test]
fn example_form_reads_file_and_text() {
    let form = <TestForm as HTMLForm>::new();
    let d = FormData {
        entries: vec![
            ("input_data".to_string(), RawValue::File(vec![1, 2, 3, 4])),
            ("text".to_string(), RawValue::Text("hello".to_string())),
        ],
    };
    let input = form.read(&d).ok().unwrap();
    assert_eq!(input.input_data.len(), 4);
    assert_eq!(input.text, "hello");
    let none_selected = FormData { entries: vec![("text".to_string(), RawValue::Text(String::new()))] };
    assert_eq!(form.read(&none_selected).ok().unwrap().input_data.len(), 0);
    let missing_text = FormData { entries: vec![] };
    assert_eq!(form.read(&missing_text).err(), Some(ParseError::InvalidText));
}

#[test]
fn example_applet_content_and_default_style() {
    let applet = TestApplet::new();
    let form = applet.content();
    assert_eq!(form.form.id, "test_form");
    assert_eq!(form.form.names(), vec!["input_data", "text"]);
    assert_eq!(form.form.submit.value, "HELLO!");
    match &form.form.fields[0] {
        Field::File(f) => {
            assert_eq!(f.label, "Input file:");
            assert_eq!(f.accept, ".xml");
            assert!(!f.multiple);
        }
        _ => panic!("first field is not a file selector"),
    }
    match &form.form.fields[1] {
        Field::Text(t) => {
            assert_eq!(t.label, "TEST2");
            assert_eq!(t.value, "Test value");
        }
        _ => panic!("second field is not a text field"),
    }
    assert!(matches!(<TestApplet as Applet>::style(&applet), AppletStyle::DEFAULT));
    assert_eq!(<TestApplet as Applet>::style(&applet).as_str(), DEFAULT_STYLESHEET);
}

#[test]
fn example_applet_rejects_text_in_place_of_file() {
    let form = TestApplet::new().content();
    let d = FormData {
        entries: vec![
            ("input_data".to_string(), RawValue::Text("x".to_string())),
            ("text".to_string(), RawValue::Text("hello".to_string())),
        ],
    };
    assert_eq!(form.read(&d).err(), Some(ParseError::InvalidFile));
}
