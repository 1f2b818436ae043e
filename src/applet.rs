//! Applets: a style and a content, mounted once under an isolated root; and
//! the example applet, a form that takes a file and a line of text.

use vstd::prelude::*;
use vstd::string::StringExecFns;
use crate::builder::{
    Field, Form, FormData, Value, ValueView, assemble, field_names, field_results, lemma_assemble,
};
use crate::dom::{AppletStyle, DomElement, Node, Tree, trees_of};
use crate::form::{File, ParseError, Text};

verus! {

/// Trait for forms of a fixed shape, whose submissions read into a typed value.
pub trait HTMLForm: DomElement + Sized {
    /// Submitted data
    type Output;

    /// The form has the shape that reading relies on.
    spec fn well_formed(&self) -> bool;

    /// What reading submitted form data may give.
    spec fn reads_to(&self, data: Seq<(Seq<char>, crate::form::RawView)>, r: Result<Self::Output, ParseError>) -> bool;

    /// Constructs a new instance of this form
    fn new() -> (r: Self)
        ensures
            r.well_formed(),
    ;

    /// Parses the submitted form data into the typed value.
    fn read(&self, data: &FormData) -> (r: Result<Self::Output, ParseError>)
        ensures
            self.reads_to(data@, r),
    ;
}

/// Trait for applets
pub trait Applet: Sized {
    /// What the applet shows.
    type Content: DomElement;

    fn new() -> Self;

    /// HTML-content of the applet. Only called once and not refreshed
    fn content(&self) -> Self::Content;

    /// CSS Style of the element, minimal default provided
    fn style(&self) -> AppletStyle {
        AppletStyle::DEFAULT
    }
}

/// The nodes that mounting attaches under the root, style first, then content.
/// Each call builds nodes of its own: two mounts share nothing.
pub fn mount<S: DomElement, C: DomElement>(style: &S, content: &C) -> (r: Vec<Node>)
    ensures
        trees_of(r@) == style.render_spec() + content.render_spec(),
{
    let mut r = style.to_nodes();
    let mut c = content.to_nodes();
    let ghost (a, b) = (r@, c@);
    r.append(&mut c);
    assert(r@ =~= a + b);
    assert(trees_of(r@) =~= trees_of(a) + trees_of(b));
    r
}

/// What the example form reads: the selected file's bytes and the text.
pub struct TestInput {
    pub input_data: Vec<u8>,
    pub text: String,
}

/// The example form: a file selector and a text field.
pub struct TestForm {
    pub form: Form,
}

impl TestForm {
    /// The example form's fields, in order.
    pub open spec fn is_test_form(form: Form) -> bool {
        &&& form.fields@.len() == 2
        &&& form.fields@[0] is File
        &&& form.fields@[1] is Text
    }
}

impl DomElement for TestForm {
    open spec fn render_spec(&self) -> Seq<Tree> {
        self.form.render_spec()
    }

    fn to_nodes(&self) -> (r: Vec<Node>) {
        self.form.to_nodes()
    }
}

impl HTMLForm for TestForm {
    type Output = TestInput;

    /// The form `test_form`: a file selector `input_data` labelled
    /// "Input file:" that accepts ".xml", one file only; a text field `text`
    /// labelled "TEST2" holding "Test value"; a submit button "HELLO!".
    open spec fn well_formed(&self) -> bool {
        &&& Self::is_test_form(self.form)
        &&& self.form.id@ == "test_form"@
        &&& self.form.fields@[0]->File_0.form@ == "test_form"@
        &&& self.form.fields@[0]->File_0.name@ == "input_data"@
        &&& self.form.fields@[0]->File_0.label@ == "Input file:"@
        &&& self.form.fields@[0]->File_0.accept@ == ".xml"@
        &&& !self.form.fields@[0]->File_0.multiple
        &&& self.form.fields@[1]->Text_0.form@ == "test_form"@
        &&& self.form.fields@[1]->Text_0.name@ == "text"@
        &&& self.form.fields@[1]->Text_0.label@ == "TEST2"@
        &&& self.form.fields@[1]->Text_0.value@ == "Test value"@
        &&& self.form.submit.form@ == "test_form"@
        &&& self.form.submit.name@ == "submit"@
        &&& self.form.submit.value@ == "HELLO!"@
    }

    /// Read as the form's submission: on success, the file's bytes and the text.
    open spec fn reads_to(&self, data: Seq<(Seq<char>, crate::form::RawView)>, r: Result<TestInput, ParseError>) -> bool {
        Self::is_test_form(self.form) ==> match assemble(
            field_names(self.form.fields@),
            field_results(self.form.fields@, data),
        ) {
            Ok(record) => r matches Ok(input) && record[0].1 == ValueView::Bytes(input.input_data@)
                && record[1].1 == ValueView::Text(input.text@),
            Err(e) => r == Err::<TestInput, ParseError>(e),
        }
    }

    fn new() -> (r: TestForm) {
        let mut fields: Vec<Field> = Vec::new();
        fields.push(
            Field::File(
                File {
                    form: "test_form",
                    name: "input_data",
                    label: String::from_str("Input file:"),
                    accept: ".xml",
                    multiple: false,
                },
            ),
        );
        fields.push(
            Field::Text(
                Text {
                    form: "test_form",
                    name: "text",
                    label: String::from_str("TEST2"),
                    value: String::from_str("Test value"),
                },
            ),
        );
        let r = TestForm { form: Form::new("test_form", fields, String::from_str("HELLO!")) };
        assert(r.form.fields@[0]->File_0.name@ == "input_data"@);
        r
    }

    fn read(&self, data: &FormData) -> (r: Result<TestInput, ParseError>) {
        if self.form.fields.len() != 2 {
            return Err(ParseError::InvalidText);
        }
        let ghost names = field_names(self.form.fields@);
        let ghost results = field_results(self.form.fields@, data@);
        proof {
            lemma_assemble(names, results);
        }
        let record = match self.form.submit(data) {
            Ok(record) => record,
            Err(e) => return Err(e),
        };
        let ghost rec = record@;
        assert(results.len() == 2);
        assert(rec.len() == 2);
        let mut entries = record.entries;
        if entries.len() != 2 {
            return Err(ParseError::InvalidText);
        }
        let second = entries.pop();
        let first = entries.pop();
        match (first, second) {
            (Some((_, Value::Bytes(input_data))), Some((_, Value::Text(text)))) => {
                Ok(TestInput { input_data, text })
            },
            _ => {
                proof {
                    if Self::is_test_form(self.form) {
                        assert(rec[0].1 is Bytes);
                        assert(rec[1].1 is Text);
                    }
                }
                Err(ParseError::InvalidText)
            },
        }
    }
}

/// The example applet.
pub struct TestApplet {}

impl TestApplet {
    /// The example form, as constructed.
    pub fn content(&self) -> (r: TestForm)
        ensures
            r.well_formed(),
    {
        <TestForm as HTMLForm>::new()
    }
}

impl Applet for TestApplet {
    type Content = TestForm;


    fn new() -> Self {
        TestApplet {  }
    }

    fn content(&self) -> TestForm {
        TestApplet::content(self)
    }
}

} // verus!
