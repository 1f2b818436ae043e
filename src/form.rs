//! Form inputs: how each kind renders, and how its raw submitted value parses.

use vstd::prelude::*;
use vstd::string::StringExecFns;
use crate::calendar::{CalendarDate, CalendarDateTime, decimal, lemma_decimal_injective, push_decimal, date_text, date_time_text, parse_date_spec, parse_date_time_spec};
use crate::data::Color3;
use crate::dom::{Attribute, DomElement, Node, Tree, attributes_view, element, leaf, push_attribute, text_view, trees_of};
use crate::numeral::{Numeral, is_numeral};

verus! {

/// The raw value that submitted form data holds under a field's name.
pub enum RawValue {
    /// No entry under the name.
    Absent,
    /// A string entry.
    Text(String),
    /// A file entry, read in full.
    File(Vec<u8>),
}

/// The mathematical value of a raw form value.
pub enum RawView {
    Absent,
    Text(Seq<char>),
    File(Seq<u8>),
}

impl View for RawValue {
    type V = RawView;

    open spec fn view(&self) -> RawView {
        match self {
            RawValue::Absent => RawView::Absent,
            RawValue::Text(s) => RawView::Text(s@),
            RawValue::File(b) => RawView::File(b@),
        }
    }
}

/// Why a raw value did not parse as its input's type.
#[derive(Debug, Clone, Copy, PartialEq, Eq, Structural)]
pub enum ParseError {
    InvalidColor,
    InvalidDate,
    InvalidDateTime,
    InvalidFile,
    InvalidNumber,
    InvalidRadio,
    InvalidText,
}

impl ParseError {
    /// The description of what was expected.
    pub open spec fn message_spec(self) -> Seq<char> {
        match self {
            ParseError::InvalidColor => "color input value was not valid color"@,
            ParseError::InvalidDate => "date input value was not valid date"@,
            ParseError::InvalidDateTime => "datetime input value was not valid datetime"@,
            ParseError::InvalidFile => "file input value was not valid file"@,
            ParseError::InvalidNumber => "number input value was not a number"@,
            ParseError::InvalidRadio => "radio input value was not valid string"@,
            ParseError::InvalidText => "text input value was not string"@,
        }
    }

    /// A human-readable description of what was expected.
    pub fn message(&self) -> (r: &'static str)
        ensures
            r@ == self.message_spec(),
    {
        match self {
            ParseError::InvalidColor => "color input value was not valid color",
            ParseError::InvalidDate => "date input value was not valid date",
            ParseError::InvalidDateTime => "datetime input value was not valid datetime",
            ParseError::InvalidFile => "file input value was not valid file",
            ParseError::InvalidNumber => "number input value was not a number",
            ParseError::InvalidRadio => "radio input value was not valid string",
            ParseError::InvalidText => "text input value was not string",
        }
    }
}

/// An executable result agrees with a result over views.
pub open spec fn agrees<T: View>(r: Result<T, ParseError>, s: Result<T::V, ParseError>) -> bool {
    match r {
        Ok(v) => s == Ok::<T::V, ParseError>(v@),
        Err(e) => s == Err::<T::V, ParseError>(e),
    }
}

/// Trait for form &lt;input&gt; elements
pub trait FormInput: DomElement {
    /// Rust datatype for this input
    type Output;

    /// What parsing a raw value may give.
    spec fn parses_to(value: RawView, r: Result<Self::Output, ParseError>) -> bool;

    /// Parses the raw value of the input; never panics on invalid or absent values.
    fn parse(value: &RawValue) -> (r: Result<Self::Output, ParseError>)
        ensures
            Self::parses_to(value@, r),
    ;
}

/// The id `{form}-{name}` that ties a label to its input.
pub open spec fn field_id(form: Seq<char>, name: Seq<char>) -> Seq<char> {
    form + "-"@ + name
}

/// The `div` of class `form-group` around a label and its control.
pub open spec fn group_tree(children: Seq<Tree>) -> Tree {
    Tree {
        tag: "div"@,
        attributes: seq![("class"@, "form-group"@)],
        text: None,
        children,
    }
}

pub open spec fn label_tree(id: Seq<char>, text: Seq<char>) -> Tree {
    leaf("label"@, seq![("for"@, id)], Some(text))
}

pub open spec fn input_tree(attributes: Seq<(Seq<char>, Seq<char>)>) -> Tree {
    leaf("input"@, attributes, None)
}

/// The attribute `name=""` where the flag is set.
pub open spec fn flag_attribute(name: Seq<char>, on: bool) -> Seq<(Seq<char>, Seq<char>)> {
    if on {
        seq![(name, ""@)]
    } else {
        Seq::empty()
    }
}

/// The attribute `name="value"` where a value is given.
pub open spec fn optional_attribute(name: Seq<char>, value: Option<Seq<char>>) -> Seq<(Seq<char>, Seq<char>)> {
    match value {
        Some(v) => seq![(name, v)],
        None => Seq::empty(),
    }
}

fn make_id(form: &str, name: &str) -> (r: String)
    ensures
        r@ == field_id(form@, name@),
{
    let mut id = String::from_str(form);
    id.append("-");
    id.append(name);
    id
}

fn label_node(id: &str, text: &str) -> (r: Node)
    ensures
        r@ == label_tree(id@, text@),
{
    let mut attributes: Vec<Attribute> = Vec::new();
    push_attribute(&mut attributes, "for", id);
    let r = element("label", attributes, Some(String::from_str(text)), Vec::new());
    assert(r@.attributes =~= seq![("for"@, id@)]);
    assert(r@.children =~= Seq::empty());
    r
}

fn input_node(attributes: Vec<Attribute>) -> (r: Node)
    ensures
        r@ == input_tree(attributes_view(attributes@)),
{
    let r = element("input", attributes, None, Vec::new());
    assert(r@.children =~= Seq::empty());
    r
}

/// A fragment of one form group holding the given nodes.
fn group_fragment(children: Vec<Node>) -> (r: Vec<Node>)
    ensures
        trees_of(r@) == seq![group_tree(trees_of(children@))],
{
    let mut attributes: Vec<Attribute> = Vec::new();
    push_attribute(&mut attributes, "class", "form-group");
    let div = element("div", attributes, None, children);
    assert(div@.attributes =~= seq![("class"@, "form-group"@)]);
    let mut r: Vec<Node> = Vec::new();
    r.push(div);
    assert(trees_of(r@) =~= seq![group_tree(trees_of(children@))]);
    r
}

/// A fragment of one form group holding two nodes.
fn group_of_two(first: Node, second: Node) -> (r: Vec<Node>)
    ensures
        trees_of(r@) == seq![group_tree(seq![first@, second@])],
{
    let ghost (a, b) = (first@, second@);
    let mut children: Vec<Node> = Vec::new();
    children.push(first);
    children.push(second);
    assert(trees_of(children@) =~= seq![a, b]);
    group_fragment(children)
}

/// &lt;input type='checkbox'&gt;
pub struct Checkbox {
    pub form: &'static str,
    pub name: &'static str,
    pub label: String,
    pub default: bool,
}

/// A checkbox is checked exactly when its raw value is the string `on`.
pub open spec fn checkbox_value(value: RawView) -> bool {
    value == RawView::Text("on"@)
}

impl DomElement for Checkbox {
    /// The checkbox, then its label.
    open spec fn render_spec(&self) -> Seq<Tree> {
        let id = field_id(self.form@, self.name@);
        seq![
            group_tree(
                seq![
                    input_tree(
                        seq![("type"@, "checkbox"@), ("name"@, self.name@), ("id"@, id)]
                            + flag_attribute("checked"@, self.default),
                    ),
                    label_tree(id, self.label@),
                ],
            ),
        ]
    }

    fn to_nodes(&self) -> (r: Vec<Node>) {
        let id = make_id(self.form, self.name);
        let mut attributes: Vec<Attribute> = Vec::new();
        push_attribute(&mut attributes, "type", "checkbox");
        push_attribute(&mut attributes, "name", self.name);
        push_attribute(&mut attributes, "id", id.as_str());
        if self.default {
            push_attribute(&mut attributes, "checked", "");
        }
        assert(attributes_view(attributes@) =~= seq![("type"@, "checkbox"@), ("name"@, self.name@), ("id"@, id@)]
            + flag_attribute("checked"@, self.default));
        let checkbox = input_node(attributes);
        let label = label_node(id.as_str(), self.label.as_str());
        group_of_two(checkbox, label)
    }
}

impl FormInput for Checkbox {
    type Output = bool;

    open spec fn parses_to(value: RawView, r: Result<bool, ParseError>) -> bool {
        r == Ok::<bool, ParseError>(checkbox_value(value))
    }

    fn parse(value: &RawValue) -> (r: Result<bool, ParseError>) {
        match value {
            RawValue::Text(s) => {
                let on = String::from_str("on");
                Ok(*s == on)
            },
            _ => Ok(false),
        }
    }
}

/// Appends `name="value"` where a value is given.
fn push_optional(attributes: &mut Vec<Attribute>, name: &str, value: Option<String>)
    ensures
        attributes_view(final(attributes)@) == attributes_view(old(attributes)@) + optional_attribute(
            name@,
            text_view(value),
        ),
{
    match value {
        Some(v) => push_attribute(attributes, name, v.as_str()),
        None => {},
    }
    assert(attributes_view(final(attributes)@) =~= attributes_view(old(attributes)@) + optional_attribute(
        name@,
        text_view(value),
    ));
}

/// A label, then the input with the given attributes, in one form group.
fn labelled_input(id: &str, label: &str, attributes: Vec<Attribute>) -> (r: Vec<Node>)
    ensures
        trees_of(r@) == seq![group_tree(seq![label_tree(id@, label@), input_tree(attributes_view(attributes@))])],
{
    let label = label_node(id, label);
    let input = input_node(attributes);
    group_of_two(label, input)
}

/// A copy of a byte sequence.
fn copy_bytes(bytes: &Vec<u8>) -> (r: Vec<u8>)
    ensures
        r@ == bytes@,
{
    let mut r: Vec<u8> = Vec::new();
    let mut i: usize = 0;
    while i < bytes.len()
        invariant
            i <= bytes@.len(),
            r@ == bytes@.subrange(0, i as int),
        decreases bytes@.len() - i,
    {
        r.push(bytes[i]);
        i = i + 1;
        assert(r@ =~= bytes@.subrange(0, i as int));
    }
    assert(bytes@.subrange(0, i as int) =~= bytes@);
    r
}

/// `name="#rrggbb"` where a color is given.
pub open spec fn color_attribute(name: Seq<char>, c: Option<Color3>) -> Seq<(Seq<char>, Seq<char>)> {
    optional_attribute(
        name,
        match c {
            Some(c) => Some(c.css_hex()),
            None => None,
        },
    )
}

fn format_color(c: Option<Color3>) -> (r: Option<String>)
    ensures
        text_view(r) == match c {
            Some(c) => Some(c.css_hex()),
            None => None::<Seq<char>>,
        },
{
    match c {
        Some(c) => Some(c.as_css_hex()),
        None => None,
    }
}

/// &lt;input type='color'&gt;
pub struct Color {
    pub form: &'static str,
    pub name: &'static str,
    pub label: String,
    pub default: Option<Color3>,
}

/// A color input's raw value must be a string in the css hex form.
pub open spec fn color_value(value: RawView) -> Result<Color3, ParseError> {
    match value {
        RawView::Text(s) => match Color3::parse_spec(s) {
            Some(c) => Ok(c),
            None => Err(ParseError::InvalidColor),
        },
        _ => Err(ParseError::InvalidColor),
    }
}

impl DomElement for Color {
    /// The label, then the color picker with its default in css hex form.
    open spec fn render_spec(&self) -> Seq<Tree> {
        let id = field_id(self.form@, self.name@);
        seq![
            group_tree(
                seq![
                    label_tree(id, self.label@),
                    input_tree(
                        seq![("type"@, "color"@), ("name"@, self.name@), ("id"@, id)]
                            + color_attribute("value"@, self.default),
                    ),
                ],
            ),
        ]
    }

    fn to_nodes(&self) -> (r: Vec<Node>) {
        let id = make_id(self.form, self.name);
        let mut attributes: Vec<Attribute> = Vec::new();
        push_attribute(&mut attributes, "type", "color");
        push_attribute(&mut attributes, "name", self.name);
        push_attribute(&mut attributes, "id", id.as_str());
        let default = format_color(self.default);
        push_optional(&mut attributes, "value", default);
        assert(attributes_view(attributes@) =~= seq![("type"@, "color"@), ("name"@, self.name@), ("id"@, id@)]
            + color_attribute("value"@, self.default));
        labelled_input(id.as_str(), self.label.as_str(), attributes)
    }
}

impl FormInput for Color {
    type Output = Color3;

    open spec fn parses_to(value: RawView, r: Result<Color3, ParseError>) -> bool {
        r == color_value(value)
    }

    fn parse(value: &RawValue) -> (r: Result<Color3, ParseError>) {
        match value {
            RawValue::Text(s) => match Color3::parse_from_hex(s.as_str()) {
                Some(c) => Ok(c),
                None => Err(ParseError::InvalidColor),
            },
            _ => Err(ParseError::InvalidColor),
        }
    }
}

/// `name="YYYY-MM-DD"` where a date is given.
pub open spec fn date_attribute(name: Seq<char>, d: Option<CalendarDate>) -> Seq<(Seq<char>, Seq<char>)> {
    optional_attribute(
        name,
        match d {
            Some(d) => Some(date_text(d@)),
            None => None,
        },
    )
}

/// `name="YYYY-MM-DDTHH:MM"` where a date and time is given.
pub open spec fn date_time_attribute(name: Seq<char>, d: Option<CalendarDateTime>) -> Seq<(Seq<char>, Seq<char>)> {
    optional_attribute(
        name,
        match d {
            Some(d) => Some(date_time_text(d@)),
            None => None,
        },
    )
}

fn format_date(d: Option<CalendarDate>) -> (r: Option<String>)
    ensures
        text_view(r) == match d {
            Some(d) => Some(date_text(d@)),
            None => None::<Seq<char>>,
        },
{
    match d {
        Some(d) => Some(d.format()),
        None => None,
    }
}

fn format_date_time(d: Option<CalendarDateTime>) -> (r: Option<String>)
    ensures
        text_view(r) == match d {
            Some(d) => Some(date_time_text(d@)),
            None => None::<Seq<char>>,
        },
{
    match d {
        Some(d) => Some(d.format()),
        None => None,
    }
}

/// &lt;input type='date'&gt;
pub struct Date {
    pub form: &'static str,
    pub name: &'static str,
    pub label: String,
    pub default: Option<CalendarDate>,
    pub min: Option<CalendarDate>,
    pub max: Option<CalendarDate>,
}

/// A date input's raw value must be a string of exactly the form `YYYY-MM-DD`
/// that names a day.
pub open spec fn date_value(value: RawView) -> Result<(int, int, int), ParseError> {
    match value {
        RawView::Text(s) => match parse_date_spec(s) {
            Some(d) => Ok(d),
            None => Err(ParseError::InvalidDate),
        },
        _ => Err(ParseError::InvalidDate),
    }
}

impl DomElement for Date {
    /// The label, then the date picker with its default, minimum and maximum.
    open spec fn render_spec(&self) -> Seq<Tree> {
        let id = field_id(self.form@, self.name@);
        seq![
            group_tree(
                seq![
                    label_tree(id, self.label@),
                    input_tree(
                        seq![("type"@, "date"@), ("name"@, self.name@), ("id"@, id)]
                            + date_attribute("value"@, self.default) + date_attribute("min"@, self.min)
                            + date_attribute("max"@, self.max),
                    ),
                ],
            ),
        ]
    }

    fn to_nodes(&self) -> (r: Vec<Node>) {
        let id = make_id(self.form, self.name);
        let mut attributes: Vec<Attribute> = Vec::new();
        push_attribute(&mut attributes, "type", "date");
        push_attribute(&mut attributes, "name", self.name);
        push_attribute(&mut attributes, "id", id.as_str());
        push_optional(&mut attributes, "value", format_date(self.default));
        push_optional(&mut attributes, "min", format_date(self.min));
        push_optional(&mut attributes, "max", format_date(self.max));
        assert(attributes_view(attributes@) =~= seq![("type"@, "date"@), ("name"@, self.name@), ("id"@, id@)]
            + date_attribute("value"@, self.default) + date_attribute("min"@, self.min) + date_attribute(
            "max"@,
            self.max,
        ));
        labelled_input(id.as_str(), self.label.as_str(), attributes)
    }
}

impl FormInput for Date {
    type Output = CalendarDate;

    open spec fn parses_to(value: RawView, r: Result<CalendarDate, ParseError>) -> bool {
        agrees(r, date_value(value))
    }

    fn parse(value: &RawValue) -> (r: Result<CalendarDate, ParseError>) {
        match value {
            RawValue::Text(s) => match CalendarDate::parse(s.as_str()) {
                Some(d) => Ok(d),
                None => Err(ParseError::InvalidDate),
            },
            _ => Err(ParseError::InvalidDate),
        }
    }
}

/// &lt;input type='datetime-local'&gt;
pub struct DateTime {
    pub form: &'static str,
    pub name: &'static str,
    pub label: String,
    pub default: Option<CalendarDateTime>,
    pub min: Option<CalendarDateTime>,
    pub max: Option<CalendarDateTime>,
}

/// A date-time input's raw value must be a string of exactly the form
/// `YYYY-MM-DDTHH:MM` that names a day and a time.
pub open spec fn date_time_value(value: RawView) -> Result<((int, int, int), int, int), ParseError> {
    match value {
        RawView::Text(s) => match parse_date_time_spec(s) {
            Some(d) => Ok(d),
            None => Err(ParseError::InvalidDateTime),
        },
        _ => Err(ParseError::InvalidDateTime),
    }
}

impl DomElement for DateTime {
    /// The label, then the date-time picker with its default, minimum and maximum.
    open spec fn render_spec(&self) -> Seq<Tree> {
        let id = field_id(self.form@, self.name@);
        seq![
            group_tree(
                seq![
                    label_tree(id, self.label@),
                    input_tree(
                        seq![("type"@, "datetime-local"@), ("name"@, self.name@), ("id"@, id)]
                            + date_time_attribute("value"@, self.default) + date_time_attribute(
                            "min"@,
                            self.min,
                        ) + date_time_attribute("max"@, self.max),
                    ),
                ],
            ),
        ]
    }

    fn to_nodes(&self) -> (r: Vec<Node>) {
        let id = make_id(self.form, self.name);
        let mut attributes: Vec<Attribute> = Vec::new();
        push_attribute(&mut attributes, "type", "datetime-local");
        push_attribute(&mut attributes, "name", self.name);
        push_attribute(&mut attributes, "id", id.as_str());
        push_optional(&mut attributes, "value", format_date_time(self.default));
        push_optional(&mut attributes, "min", format_date_time(self.min));
        push_optional(&mut attributes, "max", format_date_time(self.max));
        assert(attributes_view(attributes@) =~= seq![("type"@, "datetime-local"@), ("name"@, self.name@), ("id"@, id@)]
            + date_time_attribute("value"@, self.default) + date_time_attribute("min"@, self.min)
            + date_time_attribute("max"@, self.max));
        labelled_input(id.as_str(), self.label.as_str(), attributes)
    }
}

impl FormInput for DateTime {
    type Output = CalendarDateTime;

    open spec fn parses_to(value: RawView, r: Result<CalendarDateTime, ParseError>) -> bool {
        agrees(r, date_time_value(value))
    }

    fn parse(value: &RawValue) -> (r: Result<CalendarDateTime, ParseError>) {
        match value {
            RawValue::Text(s) => match CalendarDateTime::parse(s.as_str()) {
                Some(d) => Ok(d),
                None => Err(ParseError::InvalidDateTime),
            },
            _ => Err(ParseError::InvalidDateTime),
        }
    }
}

/// &lt;input type='file'&gt;
///
/// Handles no-selected-file by yielding an empty byte sequence
pub struct File {
    pub form: &'static str,
    pub name: &'static str,
    pub label: String,
    pub accept: &'static str,
    pub multiple: bool,
}

/// A file input's raw value must be a file, whose bytes it gives; with no
/// file selected it gives no bytes.
pub open spec fn file_value(value: RawView) -> Result<Seq<u8>, ParseError> {
    match value {
        RawView::File(b) => Ok(b),
        RawView::Absent => Ok(Seq::empty()),
        RawView::Text(_) => Err(ParseError::InvalidFile),
    }
}

impl DomElement for File {
    /// The label, then the file selector with its accepted types.
    open spec fn render_spec(&self) -> Seq<Tree> {
        let id = field_id(self.form@, self.name@);
        seq![
            group_tree(
                seq![
                    label_tree(id, self.label@),
                    input_tree(
                        seq![("type"@, "file"@), ("id"@, id), ("name"@, self.name@), ("accept"@, self.accept@)]
                            + flag_attribute("multiple"@, self.multiple),
                    ),
                ],
            ),
        ]
    }

    fn to_nodes(&self) -> (r: Vec<Node>) {
        let id = make_id(self.form, self.name);
        let mut attributes: Vec<Attribute> = Vec::new();
        push_attribute(&mut attributes, "type", "file");
        push_attribute(&mut attributes, "id", id.as_str());
        push_attribute(&mut attributes, "name", self.name);
        push_attribute(&mut attributes, "accept", self.accept);
        if self.multiple {
            push_attribute(&mut attributes, "multiple", "");
        }
        assert(attributes_view(attributes@) =~= seq![
            ("type"@, "file"@),
            ("id"@, id@),
            ("name"@, self.name@),
            ("accept"@, self.accept@),
        ] + flag_attribute("multiple"@, self.multiple));
        labelled_input(id.as_str(), self.label.as_str(), attributes)
    }
}

impl FormInput for File {
    type Output = Vec<u8>;

    open spec fn parses_to(value: RawView, r: Result<Vec<u8>, ParseError>) -> bool {
        agrees(r, file_value(value))
    }

    fn parse(value: &RawValue) -> (r: Result<Vec<u8>, ParseError>) {
        match value {
            RawValue::File(b) => Ok(copy_bytes(b)),
            RawValue::Absent => {
                let r: Vec<u8> = Vec::new();
                assert(r@ =~= Seq::<u8>::empty());
                Ok(r)
            },
            RawValue::Text(_) => Err(ParseError::InvalidFile),
        }
    }
}

/// &lt;input type='number'&gt;
pub struct Number {
    pub form: &'static str,
    pub name: &'static str,
    pub label: String,
    pub default: Option<Numeral>,
    pub min: Option<Numeral>,
    pub max: Option<Numeral>,
}

/// A number input's raw value must be a string that is a numeral.
pub open spec fn number_value(value: RawView) -> Result<Seq<char>, ParseError> {
    match value {
        RawView::Text(s) => if is_numeral(s) {
            Ok(s)
        } else {
            Err(ParseError::InvalidNumber)
        },
        _ => Err(ParseError::InvalidNumber),
    }
}

/// `name="numeral"` where a numeral is given.
pub open spec fn numeral_attribute(name: Seq<char>, n: Option<Numeral>) -> Seq<(Seq<char>, Seq<char>)> {
    optional_attribute(
        name,
        match n {
            Some(n) => Some(n@),
            None => None,
        },
    )
}

fn numeral_text(n: &Option<Numeral>) -> (r: Option<String>)
    ensures
        text_view(r) == match *n {
            Some(n) => Some(n@),
            None => None::<Seq<char>>,
        },
{
    match n {
        Some(n) => Some(String::from_str(n.as_str())),
        None => None,
    }
}

impl DomElement for Number {
    /// The label, then the number field with its default, minimum and maximum.
    open spec fn render_spec(&self) -> Seq<Tree> {
        let id = field_id(self.form@, self.name@);
        seq![
            group_tree(
                seq![
                    label_tree(id, self.label@),
                    input_tree(
                        seq![("type"@, "number"@), ("name"@, self.name@), ("id"@, id)]
                            + numeral_attribute("value"@, self.default) + numeral_attribute("min"@, self.min)
                            + numeral_attribute("max"@, self.max),
                    ),
                ],
            ),
        ]
    }

    fn to_nodes(&self) -> (r: Vec<Node>) {
        let id = make_id(self.form, self.name);
        let mut attributes: Vec<Attribute> = Vec::new();
        push_attribute(&mut attributes, "type", "number");
        push_attribute(&mut attributes, "name", self.name);
        push_attribute(&mut attributes, "id", id.as_str());
        push_optional(&mut attributes, "value", numeral_text(&self.default));
        push_optional(&mut attributes, "min", numeral_text(&self.min));
        push_optional(&mut attributes, "max", numeral_text(&self.max));
        assert(attributes_view(attributes@) =~= seq![("type"@, "number"@), ("name"@, self.name@), ("id"@, id@)]
            + numeral_attribute("value"@, self.default) + numeral_attribute("min"@, self.min)
            + numeral_attribute("max"@, self.max));
        labelled_input(id.as_str(), self.label.as_str(), attributes)
    }
}

impl FormInput for Number {
    type Output = Numeral;

    open spec fn parses_to(value: RawView, r: Result<Numeral, ParseError>) -> bool {
        agrees(r, number_value(value))
    }

    fn parse(value: &RawValue) -> (r: Result<Numeral, ParseError>) {
        match value {
            RawValue::Text(s) => match Numeral::parse(s.as_str()) {
                Some(n) => Ok(n),
                None => Err(ParseError::InvalidNumber),
            },
            _ => Err(ParseError::InvalidNumber),
        }
    }
}

/// &lt;input type='radio'&gt;, one per option
///
/// Caution: The data type for this input may return any string, and should not be displayed.
pub struct Radio {
    pub form: &'static str,
    pub name: &'static str,
    pub label: Vec<String>,
    pub value: Vec<&'static str>,
}

/// A radio group's raw value must be a string; it is not checked against the options.
pub open spec fn radio_value(value: RawView) -> Result<Seq<char>, ParseError> {
    match value {
        RawView::Text(s) => Ok(s),
        _ => Err(ParseError::InvalidRadio),
    }
}

impl Radio {
    /// The number of options: labels paired with values.
    pub open spec fn option_count(&self) -> nat {
        if self.label.len() <= self.value.len() {
            self.label.len() as nat
        } else {
            self.value.len() as nat
        }
    }

    /// The id `{form}-{name}-{k}` of the option at index `k`.
    pub open spec fn option_id(&self, k: int) -> Seq<char> {
        field_id(self.form@, self.name@) + "-"@ + decimal(k as nat)
    }

    /// The form group of an option: its label, then its radio button.
    pub open spec fn option_tree(&self, k: int) -> Tree {
        group_tree(
            seq![
                label_tree(self.option_id(k), self.label@[k]@),
                input_tree(
                    seq![
                        ("type"@, "radio"@),
                        ("id"@, self.option_id(k)),
                        ("name"@, self.name@),
                        ("value"@, self.value@[k]@),
                    ],
                ),
            ],
        )
    }
}

/// The options of a radio group have pairwise distinct ids.
pub proof fn lemma_option_ids_distinct(radio: &Radio, j: int, k: int)
    requires
        0 <= j,
        0 <= k,
        j != k,
    ensures
        radio.option_id(j) != radio.option_id(k),
{
    let p = field_id(radio.form@, radio.name@) + "-"@;
    lemma_decimal_injective(j as nat, k as nat);
    if radio.option_id(j) == radio.option_id(k) {
        assert((p + decimal(j as nat)).subrange(p.len() as int, (p + decimal(j as nat)).len() as int) =~= decimal(j as nat));
        assert((p + decimal(k as nat)).subrange(p.len() as int, (p + decimal(k as nat)).len() as int) =~= decimal(k as nat));
    }
}

impl DomElement for Radio {
    /// One form group per option, in order; the option at index `k` has the
    /// id `{form}-{name}-{k}`, so no two options share an id.
    open spec fn render_spec(&self) -> Seq<Tree> {
        Seq::new(self.option_count(), |k: int| self.option_tree(k))
    }

    fn to_nodes(&self) -> (r: Vec<Node>) {
        let n = if self.label.len() <= self.value.len() {
            self.label.len()
        } else {
            self.value.len()
        };
        let base = make_id(self.form, self.name);
        let mut r: Vec<Node> = Vec::new();
        let mut k: usize = 0;
        while k < n
            invariant
                k <= n == self.option_count(),
                base@ == field_id(self.form@, self.name@),
                trees_of(r@) == Seq::new(k as nat, |j: int| self.option_tree(j)),
            decreases n - k,
        {
            let mut id = base.clone();
            id.append("-");
            push_decimal(&mut id, k);
            let mut attributes: Vec<Attribute> = Vec::new();
            push_attribute(&mut attributes, "type", "radio");
            push_attribute(&mut attributes, "id", id.as_str());
            push_attribute(&mut attributes, "name", self.name);
            push_attribute(&mut attributes, "value", self.value[k]);
            assert(attributes_view(attributes@) =~= seq![
                ("type"@, "radio"@),
                ("id"@, self.option_id(k as int)),
                ("name"@, self.name@),
                ("value"@, self.value@[k as int]@),
            ]);
            assert(id@ == self.option_id(k as int));
            let mut group = labelled_input(id.as_str(), self.label[k].as_str(), attributes);
            assert(trees_of(group@) == seq![self.option_tree(k as int)]);
            let ghost before = r@;
            let ghost added = group@;
            assert(trees_of(before).len() == k);
            assert(trees_of(added).len() == 1);
            r.append(&mut group);
            k = k + 1;
            assert forall|j: int| 0 <= j < k implies trees_of(r@)[j] == self.option_tree(j) by {
                assert(r@ =~= before + added);
                if j < k - 1 {
                    assert(r@[j] == before[j]);
                    assert(trees_of(before)[j] == self.option_tree(j));
                } else {
                    assert(r@[j] == added[0]);
                    assert(trees_of(added)[0] == self.option_tree(j));
                }
            }
            assert(trees_of(r@) =~= Seq::new(k as nat, |j: int| self.option_tree(j)));
        }
        r
    }
}

impl FormInput for Radio {
    type Output = String;

    open spec fn parses_to(value: RawView, r: Result<String, ParseError>) -> bool {
        agrees(r, radio_value(value))
    }

    fn parse(value: &RawValue) -> (r: Result<String, ParseError>) {
        match value {
            RawValue::Text(s) => Ok(s.clone()),
            _ => Err(ParseError::InvalidRadio),
        }
    }
}

/// &lt;input type='submit'&gt;
///
/// Added to every form by the form builder; not a field of its own.
pub struct Submit {
    pub form: &'static str,
    pub name: &'static str,
    pub value: String,
}

impl DomElement for Submit {
    /// The submit button alone in a form group.
    open spec fn render_spec(&self) -> Seq<Tree> {
        seq![
            group_tree(
                seq![
                    input_tree(
                        seq![
                            ("type"@, "submit"@),
                            ("id"@, field_id(self.form@, self.name@)),
                            ("value"@, self.value@),
                        ],
                    ),
                ],
            ),
        ]
    }

    fn to_nodes(&self) -> (r: Vec<Node>) {
        let id = make_id(self.form, self.name);
        let mut attributes: Vec<Attribute> = Vec::new();
        push_attribute(&mut attributes, "type", "submit");
        push_attribute(&mut attributes, "id", id.as_str());
        push_attribute(&mut attributes, "value", self.value.as_str());
        assert(attributes_view(attributes@) =~= seq![
            ("type"@, "submit"@),
            ("id"@, id@),
            ("value"@, self.value@),
        ]);
        let submit = input_node(attributes);
        let ghost t = submit@;
        let mut children: Vec<Node> = Vec::new();
        children.push(submit);
        assert(trees_of(children@) =~= seq![t]);
        group_fragment(children)
    }
}

/// &lt;input type='text'&gt;
///
/// Warning: Provides direct user-input String. Subject to XSS risks
pub struct Text {
    pub form: &'static str,
    pub name: &'static str,
    pub label: String,
    pub value: String,
}

/// A text input's raw value must be a string, taken as it is.
pub open spec fn text_value(value: RawView) -> Result<Seq<char>, ParseError> {
    match value {
        RawView::Text(s) => Ok(s),
        _ => Err(ParseError::InvalidText),
    }
}

impl DomElement for Text {
    /// The label, then the text field with its initial value.
    open spec fn render_spec(&self) -> Seq<Tree> {
        let id = field_id(self.form@, self.name@);
        seq![
            group_tree(
                seq![
                    label_tree(id, self.label@),
                    input_tree(
                        seq![("type"@, "text"@), ("id"@, id), ("name"@, self.name@), ("value"@, self.value@)],
                    ),
                ],
            ),
        ]
    }

    fn to_nodes(&self) -> (r: Vec<Node>) {
        let id = make_id(self.form, self.name);
        let mut attributes: Vec<Attribute> = Vec::new();
        push_attribute(&mut attributes, "type", "text");
        push_attribute(&mut attributes, "id", id.as_str());
        push_attribute(&mut attributes, "name", self.name);
        push_attribute(&mut attributes, "value", self.value.as_str());
        assert(attributes_view(attributes@) =~= seq![
            ("type"@, "text"@),
            ("id"@, id@),
            ("name"@, self.name@),
            ("value"@, self.value@),
        ]);
        labelled_input(id.as_str(), self.label.as_str(), attributes)
    }
}

impl FormInput for Text {
    type Output = String;

    open spec fn parses_to(value: RawView, r: Result<String, ParseError>) -> bool {
        agrees(r, text_value(value))
    }

    fn parse(value: &RawValue) -> (r: Result<String, ParseError>) {
        match value {
            RawValue::Text(s) => Ok(s.clone()),
            _ => Err(ParseError::InvalidText),
        }
    }
}

} // verus!
