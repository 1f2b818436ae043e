use applet_framework::calendar::{CalendarDate, CalendarDateTime};
use applet_framework::data::Color3;
use applet_framework::dom::{DomElement, Node};
use applet_framework::form::{
    Checkbox, Color, Date, DateTime, File, FormInput, Number, ParseError, Radio, RawValue, Submit, Text,
};
use applet_framework::numeral::Numeral;

fn text(s: &str) -> RawValue {
    RawValue::Text(s.to_string())
}

fn attrs(node: &Node) -> Vec<(String, String)> {
    node.attributes.iter().map(|a| (a.name.clone(), a.value.clone())).collect()
}

fn pairs(list: &[(&str, &str)]) -> Vec<(String, String)> {
    list.iter().map(|(a, b)| (a.to_string(), b.to_string())).collect()
}

#[test]
fn checkbox_parse_on_and_everything_else() {
    assert_eq!(<Checkbox as FormInput>::parse(&text("on")), Ok(true));
    assert_eq!(<Checkbox as FormInput>::parse(&RawValue::Absent), Ok(false));
    assert_eq!(<Checkbox as FormInput>::parse(&text("")), Ok(false));
    assert_eq!(<Checkbox as FormInput>::parse(&text("off")), Ok(false));
    assert_eq!(<Checkbox as FormInput>::parse(&text("ON")), Ok(false));
    assert_eq!(<Checkbox as FormInput>::parse(&RawValue::File(vec![1, 2])), Ok(false));
}

#[test]
fn checkbox_renders_control_before_label() {
    let c = Checkbox { form: "f", name: "agree", label: "Agree".to_string(), default: true };
    let nodes = c.to_nodes();
    assert_eq!(nodes.len(), 1);
    let div = &nodes[0];
    assert_eq!(div.tag, "div");
    assert_eq!(attrs(div), pairs(&[("class", "form-group")]));
    assert_eq!(div.children.len(), 2);
    assert_eq!(div.children[0].tag, "input");
    assert_eq!(
        attrs(&div.children[0]),
        pairs(&[("type", "checkbox"), ("name", "agree"), ("id", "f-agree"), ("checked", "")])
    );
    assert_eq!(div.children[1].tag, "label");
    assert_eq!(attrs(&div.children[1]), pairs(&[("for", "f-agree")]));
    assert_eq!(div.children[1].text.as_deref(), Some("Agree"));

    let unchecked = Checkbox { form: "f", name: "agree", label: "Agree".to_string(), default: false };
    let nodes = unchecked.to_nodes();
    assert_eq!(attrs(&nodes[0].children[0]), pairs(&[("type", "checkbox"), ("name", "agree"), ("id", "f-agree")]));
}

#[test]
fn color_input_parse_and_render() {
    assert_eq!(<Color as FormInput>::parse(&text("#0a0b0c")), Ok(Color3 { red: 10, green: 11, blue: 12 }));
    assert_eq!(<Color as FormInput>::parse(&text("0a0b0c")), Err(ParseError::InvalidColor));
    assert_eq!(<Color as FormInput>::parse(&RawValue::Absent), Err(ParseError::InvalidColor));
    assert_eq!(ParseError::InvalidColor.message(), "color input value was not valid color");

    let c = Color { form: "f", name: "tint", label: "Tint".to_string(), default: Some(Color3 { red: 218, green: 153, blue: 41 }) };
    let nodes = c.to_nodes();
    let div = &nodes[0];
    assert_eq!(div.children[0].tag, "label");
    assert_eq!(
        attrs(&div.children[1]),
        pairs(&[("type", "color"), ("name", "tint"), ("id", "f-tint"), ("value", "#da9929")])
    );
}

#[test]
fn date_parse_valid_and_round_trip() {
    let d = <Date as FormInput>::parse(&text("2024-03-05")).unwrap();
    assert_eq!((d.year(), d.month(), d.day()), (2024, 3, 5));
    assert_eq!(d.format(), "2024-03-05");
    let leap = <Date as FormInput>::parse(&text("2024-02-29")).unwrap();
    assert_eq!(leap.format(), "2024-02-29");
    let early = CalendarDate::new(7, 1, 9).unwrap();
    assert_eq!(early.format(), "0007-01-09");
    assert_eq!(CalendarDate::parse(&early.format()), Some(early));
}

#[test]
fn date_parse_rejects_deviations() {
    for bad in ["24-03-05", "2024/03/05", "2024-3-5", "2024-03", "2024-02-30", "2023-02-29", "2024-13-01",
        "2024-00-10", "2024-03-05T10:00", " 2024-03-05", "abcd-ef-gh", ""] {
        assert_eq!(<Date as FormInput>::parse(&text(bad)), Err(ParseError::InvalidDate), "{}", bad);
    }
    assert_eq!(<Date as FormInput>::parse(&RawValue::Absent), Err(ParseError::InvalidDate));
    assert_eq!(ParseError::InvalidDate.message(), "date input value was not valid date");
}

#[test]
fn date_time_parse_valid_and_rejects() {
    let d = <DateTime as FormInput>::parse(&text("2024-03-05T13:45")).unwrap();
    assert_eq!((d.date().year(), d.date().month(), d.date().day(), d.hour(), d.minute()), (2024, 3, 5, 13, 45));
    assert_eq!(d.format(), "2024-03-05T13:45");
    let made = CalendarDateTime::new(CalendarDate::new(1999, 12, 31).unwrap(), 0, 5).unwrap();
    assert_eq!(made.format(), "1999-12-31T00:05");
    assert_eq!(CalendarDateTime::parse(&made.format()), Some(made));
    for bad in ["2024-03-05 13:45", "2024-03-05T24:00", "2024-03-05T12:60", "2024-03-05T1:45", "2024-03-05",
        "2024-02-30T10:00", "2024-03-05T13:45:00"] {
        assert_eq!(<DateTime as FormInput>::parse(&text(bad)), Err(ParseError::InvalidDateTime), "{}", bad);
    }
    assert!(CalendarDateTime::new(CalendarDate::new(2000, 1, 1).unwrap(), 24, 0).is_none());
}

#[test]
fn date_renders_bounds() {
    let d = Date {
        form: "f",
        name: "when",
        label: "When".to_string(),
        default: CalendarDate::new(2024, 3, 5),
        min: None,
        max: CalendarDate::new(2025, 12, 31),
    };
    let nodes = d.to_nodes();
    assert_eq!(
        attrs(&nodes[0].children[1]),
        pairs(&[("type", "date"), ("name", "when"), ("id", "f-when"), ("value", "2024-03-05"), ("max", "2025-12-31")])
    );
    let t = DateTime {
        form: "f",
        name: "at",
        label: "At".to_string(),
        default: None,
        min: CalendarDateTime::new(CalendarDate::new(2024, 1, 2).unwrap(), 8, 30),
        max: None,
    };
    let nodes = t.to_nodes();
    assert_eq!(
        attrs(&nodes[0].children[1]),
        pairs(&[("type", "datetime-local"), ("name", "at"), ("id", "f-at"), ("min", "2024-01-02T08:30")])
    );
}

#[test]
fn number_parse_numeric_inputs() {
    for (raw, expected) in [("0", 0.0f64), ("-3.5", -3.5), ("1e10", 1e10), ("36", 36.0), (".5", 0.5), ("+2.", 2.0),
        ("6.02E-3", 6.02e-3)] {
        let n = <Number as FormInput>::parse(&text(raw)).unwrap();
        assert_eq!(n.as_str(), raw);
        assert_eq!(n.as_str().parse::<f64>().unwrap(), expected);
    }
}

#[test]
fn number_parse_rejects_non_numeric() {
    for bad in ["old", "", "-", ".", "1e", "1e+", "1.2.3", "12a", "e5", " 1", "NaN", "inf", "--1"] {
        assert_eq!(<Number as FormInput>::parse(&text(bad)).err(), Some(ParseError::InvalidNumber), "{}", bad);
    }
    assert_eq!(<Number as FormInput>::parse(&RawValue::Absent).err(), Some(ParseError::InvalidNumber));
    assert_eq!(ParseError::InvalidNumber.message(), "number input value was not a number");
}

#[test]
fn number_renders_bounds() {
    let n = Number {
        form: "f",
        name: "age",
        label: "Age".to_string(),
        default: None,
        min: Numeral::parse("0"),
        max: Numeral::parse("150"),
    };
    let nodes = n.to_nodes();
    assert_eq!(
        attrs(&nodes[0].children[1]),
        pairs(&[("type", "number"), ("name", "age"), ("id", "f-age"), ("min", "0"), ("max", "150")])
    );
}

#[test]
fn file_parse_with_no_file_is_empty() {
    assert_eq!(<File as FormInput>::parse(&RawValue::Absent), Ok(vec![]));
    assert_eq!(<File as FormInput>::parse(&RawValue::File(vec![])), Ok(vec![]));
    assert_eq!(<File as FormInput>::parse(&RawValue::File(vec![60, 120, 62])), Ok(vec![60, 120, 62]));
    assert_eq!(<File as FormInput>::parse(&text("name.xml")), Err(ParseError::InvalidFile));
}

#[test]
fn file_renders_accept_and_multiple() {
    let f = File { form: "f", name: "doc", label: "Doc".to_string(), accept: ".xml", multiple: true };
    let nodes = f.to_nodes();
    assert_eq!(
        attrs(&nodes[0].children[1]),
        pairs(&[("type", "file"), ("id", "f-doc"), ("name", "doc"), ("accept", ".xml"), ("multiple", "")])
    );
}

#[test]
fn radio_parse_and_per_option_ids() {
    assert_eq!(<Radio as FormInput>::parse(&text("b")), Ok("b".to_string()));
    assert_eq!(<Radio as FormInput>::parse(&text("not an option")), Ok("not an option".to_string()));
    assert_eq!(<Radio as FormInput>::parse(&RawValue::Absent), Err(ParseError::InvalidRadio));
    let r = Radio {
        form: "f",
        name: "pick",
        label: vec!["A".to_string(), "B".to_string(), "C".to_string()],
        value: vec!["a", "b"],
    };
    let nodes = r.to_nodes();
    assert_eq!(nodes.len(), 2);
    assert_eq!(attrs(&nodes[0].children[0]), pairs(&[("for", "f-pick-0")]));
    assert_eq!(
        attrs(&nodes[1].children[1]),
        pairs(&[("type", "radio"), ("id", "f-pick-1"), ("name", "pick"), ("value", "b")])
    );
    assert_eq!(nodes[1].children[0].text.as_deref(), Some("B"));
}

#[test]
fn text_parse_and_render() {
    assert_eq!(<Text as FormInput>::parse(&text("<b>hi</b>")), Ok("<b>hi</b>".to_string()));
    assert_eq!(<Text as FormInput>::parse(&text("")), Ok(String::new()));
    assert_eq!(<Text as FormInput>::parse(&RawValue::File(vec![1])), Err(ParseError::InvalidText));
    let t = Text { form: "f", name: "name", label: "Name".to_string(), value: "Ada".to_string() };
    let nodes = t.to_nodes();
    assert_eq!(nodes[0].children[0].text.as_deref(), Some("Name"));
    assert_eq!(
        attrs(&nodes[0].children[1]),
        pairs(&[("type", "text"), ("id", "f-name"), ("name", "name"), ("value", "Ada")])
    );
}

#[test]
fn submit_renders_button_alone() {
    let s = Submit { form: "f", name: "submit", value: "Send".to_string() };
    let nodes = s.to_nodes();
    assert_eq!(nodes.len(), 1);
    assert_eq!(nodes[0].children.len(), 1);
    assert_eq!(attrs(&nodes[0].children[0]), pairs(&[("type", "submit"), ("id", "f-submit"), ("value", "Send")]));
}

#[test]
fn parse_error_messages() {
    assert_eq!(ParseError::InvalidDateTime.message(), "datetime input value was not valid datetime");
    assert_eq!(ParseError::InvalidFile.message(), "file input value was not valid file");
    assert_eq!(ParseError::InvalidRadio.message(), "radio input value was not valid string");
    assert_eq!(ParseError::InvalidText.message(), "text input value was not string");
}

#[test]
fn radio_options_with_equal_values_get_distinct_ids() {
    let labels: Vec<String> = (0..12).map(|i| format!("L{}", i)).collect();
    let r = Radio { form: "f", name: "v", label: labels, value: vec!["v"; 12] };
    let nodes = r.to_nodes();
    assert_eq!(nodes.len(), 12);
    let ids: Vec<String> = nodes.iter().map(|n| n.children[1].attributes[1].value.clone()).collect();
    assert_eq!(ids[0], "f-v-0");
    assert_eq!(ids[11], "f-v-11");
    for i in 0..ids.len() {
        assert_eq!(nodes[i].children[0].attributes[0].value, ids[i]);
        for j in 0..i {
            assert_ne!(ids[i], ids[j]);
        }
    }
}
