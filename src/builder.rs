//! Forms built from an ordered list of fields, and their submission: every
//! field's raw value is parsed and the results are assembled, in declared
//! order, into one record.

use vstd::prelude::*;
use vstd::string::StringExecFns;
use crate::calendar::{CalendarDate, CalendarDateTime};
use crate::data::Color3;
use crate::dom::{Attribute, DomElement, Node, Tree, attributes_view, element, push_attribute, trees_of};
use crate::form::{
    Checkbox, Color, Date, DateTime, File, FormInput, Number, ParseError, Radio, RawValue, RawView,
    Submit, Text, agrees, checkbox_value, color_value, date_time_value, date_value, file_value,
    number_value, radio_value, text_value,
};
use crate::numeral::Numeral;

verus! {

broadcast use vstd::seq_lib::group_seq_properties;

/// One field of a form: any input kind but submit.
pub enum Field {
    Checkbox(Checkbox),
    Color(Color),
    Date(Date),
    DateTime(DateTime),
    File(File),
    Number(Number),
    Radio(Radio),
    Text(Text),
}

/// A parsed field value.
pub enum Value {
    Bool(bool),
    Color(Color3),
    Date(CalendarDate),
    DateTime(CalendarDateTime),
    Bytes(Vec<u8>),
    Number(Numeral),
    Text(String),
}

/// The mathematical value of a parsed field value.
pub enum ValueView {
    Bool(bool),
    Color(Color3),
    Date((int, int, int)),
    DateTime(((int, int, int), int, int)),
    Bytes(Seq<u8>),
    Number(Seq<char>),
    Text(Seq<char>),
}

impl View for Value {
    type V = ValueView;

    open spec fn view(&self) -> ValueView {
        match self {
            Value::Bool(b) => ValueView::Bool(*b),
            Value::Color(c) => ValueView::Color(*c),
            Value::Date(d) => ValueView::Date(d@),
            Value::DateTime(d) => ValueView::DateTime(d@),
            Value::Bytes(b) => ValueView::Bytes(b@),
            Value::Number(n) => ValueView::Number(n@),
            Value::Text(s) => ValueView::Text(s@),
        }
    }
}

/// The view of a parse result.
pub open spec fn result_view(r: Result<Value, ParseError>) -> Result<ValueView, ParseError> {
    match r {
        Ok(v) => Ok(v@),
        Err(e) => Err(e),
    }
}

impl Field {
    /// The field's name, under which its value is submitted.
    pub open spec fn name_spec(&self) -> Seq<char> {
        match self {
            Field::Checkbox(f) => f.name@,
            Field::Color(f) => f.name@,
            Field::Date(f) => f.name@,
            Field::DateTime(f) => f.name@,
            Field::File(f) => f.name@,
            Field::Number(f) => f.name@,
            Field::Radio(f) => f.name@,
            Field::Text(f) => f.name@,
        }
    }

    /// What parsing a raw value gives for this field's kind.
    pub open spec fn parse_spec(&self, value: RawView) -> Result<ValueView, ParseError> {
        match self {
            Field::Checkbox(_) => Ok(ValueView::Bool(checkbox_value(value))),
            Field::Color(_) => match color_value(value) {
                Ok(c) => Ok(ValueView::Color(c)),
                Err(e) => Err(e),
            },
            Field::Date(_) => match date_value(value) {
                Ok(d) => Ok(ValueView::Date(d)),
                Err(e) => Err(e),
            },
            Field::DateTime(_) => match date_time_value(value) {
                Ok(d) => Ok(ValueView::DateTime(d)),
                Err(e) => Err(e),
            },
            Field::File(_) => match file_value(value) {
                Ok(b) => Ok(ValueView::Bytes(b)),
                Err(e) => Err(e),
            },
            Field::Number(_) => match number_value(value) {
                Ok(n) => Ok(ValueView::Number(n)),
                Err(e) => Err(e),
            },
            Field::Radio(_) => match radio_value(value) {
                Ok(s) => Ok(ValueView::Text(s)),
                Err(e) => Err(e),
            },
            Field::Text(_) => match text_value(value) {
                Ok(s) => Ok(ValueView::Text(s)),
                Err(e) => Err(e),
            },
        }
    }

    /// The field's name.
    pub fn name(&self) -> (r: &'static str)
        ensures
            r@ == self.name_spec(),
    {
        match self {
            Field::Checkbox(f) => f.name,
            Field::Color(f) => f.name,
            Field::Date(f) => f.name,
            Field::DateTime(f) => f.name,
            Field::File(f) => f.name,
            Field::Number(f) => f.name,
            Field::Radio(f) => f.name,
            Field::Text(f) => f.name,
        }
    }

    /// Parses a raw value by the rules of the field's kind.
    pub fn parse(&self, value: &RawValue) -> (r: Result<Value, ParseError>)
        ensures
            result_view(r) == self.parse_spec(value@),
    {
        match self {
            Field::Checkbox(_) => match <Checkbox as FormInput>::parse(value) {
                Ok(b) => Ok(Value::Bool(b)),
                Err(e) => Err(e),
            },
            Field::Color(_) => match <Color as FormInput>::parse(value) {
                Ok(c) => Ok(Value::Color(c)),
                Err(e) => Err(e),
            },
            Field::Date(_) => match <Date as FormInput>::parse(value) {
                Ok(d) => Ok(Value::Date(d)),
                Err(e) => Err(e),
            },
            Field::DateTime(_) => match <DateTime as FormInput>::parse(value) {
                Ok(d) => Ok(Value::DateTime(d)),
                Err(e) => Err(e),
            },
            Field::File(_) => match <File as FormInput>::parse(value) {
                Ok(b) => Ok(Value::Bytes(b)),
                Err(e) => Err(e),
            },
            Field::Number(_) => match <Number as FormInput>::parse(value) {
                Ok(n) => Ok(Value::Number(n)),
                Err(e) => Err(e),
            },
            Field::Radio(_) => match <Radio as FormInput>::parse(value) {
                Ok(s) => Ok(Value::Text(s)),
                Err(e) => Err(e),
            },
            Field::Text(_) => match <Text as FormInput>::parse(value) {
                Ok(s) => Ok(Value::Text(s)),
                Err(e) => Err(e),
            },
        }
    }
}

impl DomElement for Field {
    open spec fn render_spec(&self) -> Seq<Tree> {
        match self {
            Field::Checkbox(f) => f.render_spec(),
            Field::Color(f) => f.render_spec(),
            Field::Date(f) => f.render_spec(),
            Field::DateTime(f) => f.render_spec(),
            Field::File(f) => f.render_spec(),
            Field::Number(f) => f.render_spec(),
            Field::Radio(f) => f.render_spec(),
            Field::Text(f) => f.render_spec(),
        }
    }

    fn to_nodes(&self) -> (r: Vec<Node>) {
        match self {
            Field::Checkbox(f) => f.to_nodes(),
            Field::Color(f) => f.to_nodes(),
            Field::Date(f) => f.to_nodes(),
            Field::DateTime(f) => f.to_nodes(),
            Field::File(f) => f.to_nodes(),
            Field::Number(f) => f.to_nodes(),
            Field::Radio(f) => f.to_nodes(),
            Field::Text(f) => f.to_nodes(),
        }
    }
}

/// The first value submitted under a name; absent where there is none.
pub open spec fn lookup(entries: Seq<(Seq<char>, RawView)>, name: Seq<char>) -> RawView
    decreases entries.len(),
{
    if entries.len() == 0 {
        RawView::Absent
    } else if entries[0].0 == name {
        entries[0].1
    } else {
        lookup(entries.drop_first(), name)
    }
}

/// Submitted form data: name and raw value of each entry, in document order.
pub struct FormData {
    pub entries: Vec<(String, RawValue)>,
}

impl View for FormData {
    type V = Seq<(Seq<char>, RawView)>;

    open spec fn view(&self) -> Seq<(Seq<char>, RawView)> {
        Seq::new(self.entries.len() as nat, |i: int| (self.entries@[i].0@, self.entries@[i].1@))
    }
}

impl FormData {
    /// The first value submitted under `name`, if any.
    pub fn get(&self, name: &str) -> (r: Option<&RawValue>)
        ensures
            r matches Some(v) ==> lookup(self@, name@) == v@,
            r is None ==> lookup(self@, name@) == RawView::Absent,
    {
        let key = String::from_str(name);
        let mut i: usize = 0;
        while i < self.entries.len()
            invariant
                key@ == name@,
                i <= self@.len(),
                lookup(self@, name@) == lookup(self@.subrange(i as int, self@.len() as int), name@),
            decreases self@.len() - i,
        {
            let ghost rest = self@.subrange(i as int, self@.len() as int);
            if self.entries[i].0 == key {
                assert(rest[0] == self@[i as int]);
                return Some(&self.entries[i].1);
            }
            assert(rest.drop_first() =~= self@.subrange(i + 1, self@.len() as int));
            i = i + 1;
        }
        None
    }
}

/// The outcome of a submission from the parse result of each field in
/// declared order: the record of names and values where every parse
/// succeeded, else the error of the first field in declared order that failed.
pub open spec fn assemble(names: Seq<Seq<char>>, results: Seq<Result<ValueView, ParseError>>) -> Result<
    Seq<(Seq<char>, ValueView)>,
    ParseError,
>
    decreases results.len(),
{
    if results.len() == 0 {
        Ok(Seq::empty())
    } else {
        match assemble(names, results.drop_last()) {
            Err(e) => Err(e),
            Ok(record) => match results.last() {
                Err(e) => Err(e),
                Ok(v) => Ok(record.push((names[results.len() - 1], v))),
            },
        }
    }
}

/// The names of the fields, in order.
pub open spec fn field_names(fields: Seq<Field>) -> Seq<Seq<char>> {
    Seq::new(fields.len(), |i: int| fields[i].name_spec())
}

/// The parse result of every field on the value submitted under its name.
pub open spec fn field_results(fields: Seq<Field>, data: Seq<(Seq<char>, RawView)>) -> Seq<Result<ValueView, ParseError>> {
    Seq::new(fields.len(), |i: int| fields[i].parse_spec(lookup(data, fields[i].name_spec())))
}

/// The record of a successful submission: field names and parsed values, in
/// declared order.
pub struct Record {
    pub entries: Vec<(&'static str, Value)>,
}

impl View for Record {
    type V = Seq<(Seq<char>, ValueView)>;

    open spec fn view(&self) -> Seq<(Seq<char>, ValueView)> {
        Seq::new(self.entries.len() as nat, |i: int| (self.entries@[i].0@, self.entries@[i].1@))
    }
}

impl Record {
    /// The value of the first entry named `name`, if any.
    pub fn get(&self, name: &str) -> (r: Option<&Value>)
        ensures
            r matches Some(v) ==> exists|i: int|
                0 <= i < self@.len() && self@[i] == (name@, v@) && forall|j: int|
                    0 <= j < i ==> self@[j].0 != name@,
            r is None ==> forall|i: int| 0 <= i < self@.len() ==> self@[i].0 != name@,
    {
        let key = String::from_str(name);
        let mut i: usize = 0;
        while i < self.entries.len()
            invariant
                key@ == name@,
                i <= self@.len(),
                forall|j: int| 0 <= j < i ==> self@[j].0 != name@,
            decreases self@.len() - i,
        {
            if String::from_str(self.entries[i].0) == key {
                assert(self@[i as int] == (name@, self.entries@[i as int].1@));
                return Some(&self.entries[i].1);
            }
            i = i + 1;
        }
        None
    }
}

/// A submission in progress: the parse result of each field, held in the
/// field's own slot as it completes, whatever the order of completion.
pub struct Submission {
    pub slots: Vec<Option<Result<Value, ParseError>>>,
}

/// The view of a slot.
pub open spec fn slot_view(s: Option<Result<Value, ParseError>>) -> Option<Result<ValueView, ParseError>> {
    match s {
        Some(r) => Some(result_view(r)),
        None => None,
    }
}

impl View for Submission {
    type V = Seq<Option<Result<ValueView, ParseError>>>;

    open spec fn view(&self) -> Seq<Option<Result<ValueView, ParseError>>> {
        Seq::new(self.slots.len() as nat, |i: int| slot_view(self.slots@[i]))
    }
}

/// A submission succeeds exactly when every field parses; its record then
/// holds each field's name and value, in declared order. Otherwise it fails
/// with the error of the first field, in declared order, that did not parse.
pub proof fn lemma_assemble(names: Seq<Seq<char>>, results: Seq<Result<ValueView, ParseError>>)
    requires
        names.len() >= results.len(),
    ensures
        (forall|i: int| 0 <= i < results.len() ==> results[i] is Ok) <==> assemble(names, results) is Ok,
        assemble(names, results) is Ok ==> assemble(names, results)->Ok_0 == Seq::new(
            results.len(),
            |i: int| (names[i], results[i]->Ok_0),
        ),
        assemble(names, results) is Err ==> exists|k: int|
            0 <= k < results.len() && results[k] is Err && assemble(names, results)->Err_0
                == results[k]->Err_0 && forall|j: int| 0 <= j < k ==> results[j] is Ok,
    decreases results.len(),
{
    if results.len() > 0 {
        let rest = results.drop_last();
        lemma_assemble(names, rest);
        let n = results.len() - 1;
        if assemble(names, rest) is Ok {
            assert(forall|i: int| 0 <= i < n ==> rest[i] is Ok);
            if results[n] is Ok {
                assert forall|i: int| 0 <= i < results.len() implies results[i] is Ok by {
                    if i < n {
                        assert(rest[i] == results[i]);
                    }
                }
                assert(assemble(names, results)->Ok_0 =~= Seq::new(
                    results.len(),
                    |i: int| (names[i], results[i]->Ok_0),
                ));
            } else {
                assert forall|j: int| 0 <= j < n implies results[j] is Ok by {
                    assert(rest[j] == results[j]);
                }
            }
        } else {
            let k = choose|k: int|
                0 <= k < rest.len() && rest[k] is Err && assemble(names, rest)->Err_0 == rest[k]->Err_0
                    && forall|j: int| 0 <= j < k ==> rest[j] is Ok;
            assert(results[k] == rest[k]);
            assert forall|j: int| 0 <= j < k implies results[j] is Ok by {
                assert(rest[j] == results[j]);
            }
        }
    }
}

/// A checkbox field never fails: it is checked exactly when its raw value is
/// the string `on`, and unchecked for an absent value, an empty string or any
/// other value.
pub proof fn lemma_checkbox_never_fails(field: Field, value: RawView)
    requires
        field is Checkbox,
    ensures
        field.parse_spec(value) == Ok::<ValueView, ParseError>(ValueView::Bool(value == RawView::Text("on"@))),
{
}

/// `n` slots, none complete.
pub open spec fn pending(n: nat) -> Seq<Option<Result<ValueView, ParseError>>> {
    Seq::new(n, |i: int| None::<Result<ValueView, ParseError>>)
}

/// The slots after the parses of `order` complete, in that order, with the
/// results `results`.
pub open spec fn complete_in_order(
    slots: Seq<Option<Result<ValueView, ParseError>>>,
    order: Seq<int>,
    results: Seq<Result<ValueView, ParseError>>,
) -> Seq<Option<Result<ValueView, ParseError>>>
    decreases order.len(),
{
    if order.len() == 0 {
        slots
    } else {
        complete_in_order(slots, order.drop_last(), results).update(
            order.last(),
            Some(results[order.last()]),
        )
    }
}

impl Submission {
    /// A submission of `n` fields, none of them complete.
    pub fn new(n: usize) -> (r: Submission)
        ensures
            r@ == pending(n as nat),
    {
        let mut slots: Vec<Option<Result<Value, ParseError>>> = Vec::new();
        let mut i: usize = 0;
        while i < n
            invariant
                i <= n,
                slots@.len() == i,
                forall|j: int| 0 <= j < i ==> slots@[j] is None,
            decreases n - i,
        {
            slots.push(None);
            i = i + 1;
        }
        let r = Submission { slots };
        assert(r@ =~= pending(n as nat));
        r
    }

    /// Records the parse result of field `index`; an index past the last
    /// field changes nothing.
    pub fn complete(&mut self, index: usize, result: Result<Value, ParseError>)
        ensures
            index < old(self)@.len() ==> final(self)@ == old(self)@.update(index as int, Some(result_view(result))),
            index >= old(self)@.len() ==> final(self)@ == old(self)@,
    {
        if index < self.slots.len() {
            self.slots.set(index, Some(result));
            assert(final(self)@ =~= old(self)@.update(index as int, Some(result_view(result))));
        }
    }

    /// The record in declared order once every field has completed, or the
    /// error of the first failed field in declared order; `None` while a
    /// field is still pending or where the names do not match the slots.
    pub fn finish(self, names: &Vec<&'static str>) -> (r: Option<Result<Record, ParseError>>)
        ensures
            (names@.len() == self@.len() && forall|i: int| 0 <= i < self@.len() ==> self@[i] is Some)
                <==> r is Some,
            r matches Some(res) ==> match res {
                Ok(record) => assemble(names_view(names@), results_of(self@)) == Ok::<
                    Seq<(Seq<char>, ValueView)>,
                    ParseError,
                >(record@),
                Err(e) => assemble(names_view(names@), results_of(self@)) == Err::<
                    Seq<(Seq<char>, ValueView)>,
                    ParseError,
                >(e),
            },
    {
        let ghost all = self@;
        let n = self.slots.len();
        if names.len() != n {
            return None;
        }
        let mut k: usize = 0;
        while k < n
            invariant
                k <= n == self.slots@.len() == all.len(),
                all == self@,
                forall|j: int| 0 <= j < k ==> all[j] is Some,
            decreases n - k,
        {
            if self.slots[k].is_none() {
                assert(all[k as int] is None);
                return None;
            }
            k = k + 1;
        }
        let ghost names_v = names_view(names@);
        let ghost results = results_of(all);
        let mut slots = self.slots;
        let mut entries: Vec<(&'static str, Value)> = Vec::new();
        let mut error: Option<ParseError> = None;
        let mut i: usize = 0;
        while i < n
            invariant
                i <= n == all.len() == names@.len(),
                results == results_of(all),
                names_v == names_view(names@),
                slots@.len() == n - i,
                forall|j: int| 0 <= j < n ==> all[j] is Some,
                forall|j: int| 0 <= j < n - i ==> slot_view(#[trigger] slots@[j]) == all[i + j],
                match assemble(names_v, results.take(i as int)) {
                    Ok(record) => error is None && (Record { entries }@) == record,
                    Err(e) => error == Some(e),
                },
            decreases n - i,
        {
            let ghost before = slots@;
            let slot = slots.remove(0);
            let ghost prev = Record { entries }@;
            assert(slot_view(slot) == all[i as int]);
            assert(results.take(i + 1).drop_last() =~= results.take(i as int));
            assert(results.take(i + 1).last() == results[i as int]);
            if error.is_none() {
                match slot {
                    Some(Ok(v)) => {
                        entries.push((names[i], v));
                        assert(Record { entries }@ =~= prev.push((names_v[i as int], results[i as int]->Ok_0)));
                    },
                    Some(Err(e)) => {
                        error = Some(e);
                    },
                    None => {},
                }
            }
            i = i + 1;
            assert forall|j: int| 0 <= j < n - i implies slot_view(#[trigger] slots@[j]) == all[i + j] by {
                assert(slots@[j] == before[j + 1]);
            }
        }
        assert(results.take(n as int) =~= results);
        match error {
            Some(e) => Some(Err(e)),
            None => Some(Ok(Record { entries })),
        }
    }
}

/// The names as character sequences.
pub open spec fn names_view(names: Seq<&'static str>) -> Seq<Seq<char>> {
    Seq::new(names.len(), |i: int| names[i]@)
}

/// The results held by complete slots.
pub open spec fn results_of(slots: Seq<Option<Result<ValueView, ParseError>>>) -> Seq<Result<ValueView, ParseError>> {
    Seq::new(slots.len(), |i: int| slots[i]->Some_0)
}

/// The slots after completions in `order`: a slot is complete exactly when
/// its field is in `order`, and then holds that field's result.
proof fn lemma_completed_slots(n: nat, order: Seq<int>, results: Seq<Result<ValueView, ParseError>>)
    requires
        results.len() == n,
        forall|k: int| 0 <= k < order.len() ==> 0 <= #[trigger] order[k] < n,
    ensures
        complete_in_order(pending(n), order, results).len() == n,
        forall|i: int|
            0 <= i < n ==> #[trigger] complete_in_order(
                pending(n),
                order,
                results,
            )[i] == if order.contains(i) {
                Some(results[i])
            } else {
                None
            },
    decreases order.len(),
{
    if order.len() > 0 {
        let rest = order.drop_last();
        let last = order.last();
        assert forall|k: int| 0 <= k < rest.len() implies 0 <= #[trigger] rest[k] < n by {
            assert(rest[k] == order[k]);
        }
        lemma_completed_slots(n, rest, results);
        assert forall|i: int| 0 <= i < n && i != last implies (order.contains(i) <==> rest.contains(i)) by {
            if order.contains(i) {
                let k = choose|k: int| 0 <= k < order.len() && order[k] == i;
                assert(k != order.len() - 1);
                assert(rest[k] == i);
            }
            if rest.contains(i) {
                let k = choose|k: int| 0 <= k < rest.len() && rest[k] == i;
                assert(order[k] == i);
            }
        }
        assert(order[order.len() - 1] == last);
        assert(order.contains(last));
    }
}

/// Whatever the order in which the fields' parses complete, once every field
/// has completed, each slot holds its own field's result: the slots, and so
/// the assembled record, are those of completion in declared order.
pub proof fn lemma_any_completion_order(n: nat, order: Seq<int>, results: Seq<Result<ValueView, ParseError>>)
    requires
        results.len() == n,
        forall|k: int| 0 <= k < order.len() ==> 0 <= #[trigger] order[k] < n,
        forall|i: int| 0 <= i < n ==> order.contains(i),
    ensures
        complete_in_order(pending(n), order, results)
            == Seq::new(n, |i: int| Some(results[i])),
        results_of(complete_in_order(pending(n), order, results))
            == results,
{
    lemma_completed_slots(n, order, results);
    let c = complete_in_order(pending(n), order, results);
    assert(c =~= Seq::new(n, |i: int| Some(results[i])));
    assert(results_of(c) =~= results);
}

/// A form: its id, its fields in declared order, and its submit button.
pub struct Form {
    pub id: &'static str,
    pub fields: Vec<Field>,
    pub submit: Submit,
}

impl Form {
    /// The form `id` with these fields and a submit button labelled `submit_label`.
    pub fn new(id: &'static str, fields: Vec<Field>, submit_label: String) -> (r: Form)
        ensures
            r.id == id,
            r.fields@ == fields@,
            r.submit.form == id,
            r.submit.name@ == "submit"@,
            r.submit.value == submit_label,
    {
        Form { id, fields, submit: Submit { form: id, name: "submit", value: submit_label } }
    }

    /// The names of the fields, in declared order.
    pub fn names(&self) -> (r: Vec<&'static str>)
        ensures
            names_view(r@) == field_names(self.fields@),
    {
        let mut r: Vec<&'static str> = Vec::new();
        let mut i: usize = 0;
        while i < self.fields.len()
            invariant
                i <= self.fields@.len(),
                r@.len() == i,
                names_view(r@) == field_names(self.fields@).take(i as int),
            decreases self.fields@.len() - i,
        {
            let name = self.fields[i].name();
            let ghost before = r@;
            r.push(name);
            assert(names_view(r@) =~= names_view(before).push(name@));
            i = i + 1;
            assert(names_view(r@) =~= field_names(self.fields@).take(i as int));
        }
        assert(field_names(self.fields@).take(i as int) =~= field_names(self.fields@));
        r
    }

    /// Parses every field's submitted value and assembles the record in
    /// declared order; the first failing field in declared order fails the
    /// whole submission with its error.
    pub fn submit(&self, data: &FormData) -> (r: Result<Record, ParseError>)
        ensures
            match r {
                Ok(record) => assemble(field_names(self.fields@), field_results(self.fields@, data@))
                    == Ok::<Seq<(Seq<char>, ValueView)>, ParseError>(record@),
                Err(e) => assemble(field_names(self.fields@), field_results(self.fields@, data@))
                    == Err::<Seq<(Seq<char>, ValueView)>, ParseError>(e),
            },
    {
        let n = self.fields.len();
        let ghost results = field_results(self.fields@, data@);
        let mut submission = Submission::new(n);
        let absent = RawValue::Absent;
        let mut i: usize = 0;
        while i < n
            invariant
                n == self.fields@.len() == results.len(),
                results == field_results(self.fields@, data@),
                absent@ == RawView::Absent,
                i <= n,
                submission@ == Seq::new(
                    n as nat,
                    |j: int|
                        if j < i {
                            Some(results[j])
                        } else {
                            None
                        },
                ),
            decreases n - i,
        {
            let field = &self.fields[i];
            let result = match data.get(field.name()) {
                Some(raw) => field.parse(raw),
                None => field.parse(&absent),
            };
            submission.complete(i, result);
            i = i + 1;
            assert(submission@ =~= Seq::new(
                n as nat,
                |j: int|
                    if j < i {
                        Some(results[j])
                    } else {
                        None
                    },
            ));
        }
        let names = self.names();
        let ghost slots = submission@;
        assert(results_of(slots) =~= results);
        assert(names_view(names@).len() == names@.len());
        assert(forall|j: int| 0 <= j < slots.len() ==> slots[j] is Some);
        match submission.finish(&names) {
            Some(r) => r,
            None => {
                proof {
                    assert(false);
                }
                Err(ParseError::InvalidText)
            },
        }
    }
}

impl DomElement for Form {
    /// One `form` element, identified by the form id and with submission
    /// cancelled, holding each field's nodes in declared order, then the
    /// submit button's.
    open spec fn render_spec(&self) -> Seq<Tree> {
        seq![
            Tree {
                tag: "form"@,
                attributes: seq![("id"@, self.id@), ("onsubmit"@, "return false;"@)],
                text: None,
                children: Seq::new(self.fields.len() as nat, |i: int| self.fields@[i].render_spec()).flatten()
                    + self.submit.render_spec(),
            },
        ]
    }

    fn to_nodes(&self) -> (r: Vec<Node>) {
        let mut attributes: Vec<Attribute> = Vec::new();
        push_attribute(&mut attributes, "id", self.id);
        push_attribute(&mut attributes, "onsubmit", "return false;");
        assert(attributes_view(attributes@) =~= seq![("id"@, self.id@), ("onsubmit"@, "return false;"@)]);
        let mut children: Vec<Node> = Vec::new();
        let mut i: usize = 0;
        while i < self.fields.len()
            invariant
                i <= self.fields@.len(),
                trees_of(children@) == Seq::new(i as nat, |j: int| self.fields@[j].render_spec()).flatten(),
            decreases self.fields@.len() - i,
        {
            let mut nodes = self.fields[i].to_nodes();
            let ghost before = children@;
            let ghost added = nodes@;
            children.append(&mut nodes);
            proof {
                let parts = Seq::new(i as nat, |j: int| self.fields@[j].render_spec());
                parts.lemma_flatten_push(self.fields@[i as int].render_spec());
                assert(parts.push(self.fields@[i as int].render_spec()) =~= Seq::new(
                    (i + 1) as nat,
                    |j: int| self.fields@[j].render_spec(),
                ));
                assert(children@ =~= before + added);
                assert(trees_of(children@) =~= trees_of(before) + trees_of(added));
            }
            i = i + 1;
        }
        let mut submit = self.submit.to_nodes();
        let ghost before = children@;
        let ghost added = submit@;
        children.append(&mut submit);
        assert(children@ =~= before + added);
        assert(trees_of(children@) =~= trees_of(before) + trees_of(added));
        let form = element("form", attributes, None, children);
        let ghost t = form@;
        let mut r: Vec<Node> = Vec::new();
        r.push(form);
        assert(trees_of(r@) =~= seq![t]);
        r
    }
}

} // verus!
