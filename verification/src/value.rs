//! The raw telemetry of one device: named scalar values, as the vendor sent
//! them.
//!
//! Numbers are held by their literal text. No arithmetic is done on them in
//! this crate: a conversion is recorded beside the literal (see
//! [`crate::units::Quantity`]) and carried out by whoever turns the quantity
//! into a machine number.

use vstd::prelude::*;
use vstd::string::*;
use crate::text::same_text;

verus! {

/// One value of a raw detail.
#[derive(Debug, PartialEq, Eq)]
pub enum Scalar {
    /// A string.
    Text(String),
    /// A number, by its literal: `6.1`, `0`, `-3`, `1e21`.
    Number(String),
    /// A boolean.
    Bool(bool),
    /// Anything else (null, an array, an object), by its text.
    Other(String),
}

/// What a [`Scalar`] holds.
pub enum ScalarView {
    Text(Seq<char>),
    Number(Seq<char>),
    Bool(bool),
    Other(Seq<char>),
}

impl View for Scalar {
    type V = ScalarView;

    open spec fn view(&self) -> ScalarView {
        match self {
            Scalar::Text(s) => ScalarView::Text(s@),
            Scalar::Number(s) => ScalarView::Number(s@),
            Scalar::Bool(b) => ScalarView::Bool(*b),
            Scalar::Other(s) => ScalarView::Other(s@),
        }
    }
}

impl Clone for Scalar {
    fn clone(&self) -> (r: Self)
        ensures
            r@ == self@,
    {
        match self {
            Scalar::Text(s) => Scalar::Text(s.clone()),
            Scalar::Number(s) => Scalar::Number(s.clone()),
            Scalar::Bool(b) => Scalar::Bool(*b),
            Scalar::Other(s) => Scalar::Other(s.clone()),
        }
    }
}

/// The text a value is passed on as: a string as it is, a number by its
/// literal, a boolean as `true` or `false`.
pub open spec fn rendered(v: ScalarView) -> Seq<char> {
    match v {
        ScalarView::Text(s) => s,
        ScalarView::Number(s) => s,
        ScalarView::Bool(b) => if b {
            "true"@
        } else {
            "false"@
        },
        ScalarView::Other(s) => s,
    }
}

/// The text of a string value; of any other value, nothing.
pub open spec fn text_in(v: ScalarView) -> Seq<char> {
    match v {
        ScalarView::Text(s) => s,
        _ => Seq::empty(),
    }
}

/// The literal of a number; of any other value, nothing.
pub open spec fn literal_of(v: ScalarView) -> Seq<char> {
    match v {
        ScalarView::Number(s) => s,
        _ => Seq::empty(),
    }
}

impl Scalar {
    /// The text this value is passed on as.
    pub fn render(&self) -> (r: String)
        ensures
            r@ == rendered(self@),
    {
        match self {
            Scalar::Text(s) => s.clone(),
            Scalar::Number(s) => s.clone(),
            Scalar::Bool(b) => if *b {
                String::from_str("true")
            } else {
                String::from_str("false")
            },
            Scalar::Other(s) => s.clone(),
        }
    }
}

/// A named value.
#[derive(Debug, PartialEq, Eq)]
pub struct Field {
    pub name: String,
    pub value: Scalar,
}

/// What a [`Field`] holds.
pub struct FieldView {
    pub name: Seq<char>,
    pub value: ScalarView,
}

impl View for Field {
    type V = FieldView;

    open spec fn view(&self) -> FieldView {
        FieldView { name: self.name@, value: self.value@ }
    }
}

impl Clone for Field {
    fn clone(&self) -> (r: Self)
        ensures
            r@ == self@,
    {
        Field { name: self.name.clone(), value: self.value.clone() }
    }
}

/// The views of a run of fields.
pub open spec fn field_views(fields: Seq<Field>) -> Seq<FieldView> {
    fields.map_values(|f: Field| f@)
}

/// No name occurs twice.
pub open spec fn distinct_names(fields: Seq<FieldView>) -> bool {
    forall|i: int, j: int|
        0 <= i < j < fields.len() ==> (#[trigger] fields[i]).name != (#[trigger] fields[j]).name
}

/// Some field is called `name`.
pub open spec fn has_name(fields: Seq<FieldView>, name: Seq<char>) -> bool {
    exists|i: int| 0 <= i < fields.len() && (#[trigger] fields[i]).name == name
}

/// The place of the field called `name`.
pub open spec fn place_of(fields: Seq<FieldView>, name: Seq<char>) -> int {
    choose|i: int| 0 <= i < fields.len() && (#[trigger] fields[i]).name == name
}

/// The value of the field called `name`.
pub open spec fn value_of(fields: Seq<FieldView>, name: Seq<char>) -> ScalarView {
    fields[place_of(fields, name)].value
}

/// Where names are distinct, a field is found by its name.
pub proof fn lemma_place_of(fields: Seq<FieldView>, i: int)
    requires
        distinct_names(fields),
        0 <= i < fields.len(),
    ensures
        has_name(fields, fields[i].name),
        place_of(fields, fields[i].name) == i,
        value_of(fields, fields[i].name) == fields[i].value,
{
}

/// Keeps a field unless it is called `name`.
pub open spec fn drop_named(name: Seq<char>) -> spec_fn(FieldView) -> Option<FieldView> {
    |f: FieldView|
        if f.name == name {
            None
        } else {
            Some(f)
        }
}

/// The raw detail of one device: an ordered list of fields with distinct
/// names.
#[derive(Debug, PartialEq, Eq)]
pub struct RawDetail {
    fields: Vec<Field>,
}

impl View for RawDetail {
    type V = Seq<FieldView>;

    closed spec fn view(&self) -> Seq<FieldView> {
        field_views(self.fields@)
    }
}

impl RawDetail {
    #[verifier::type_invariant]
    spec fn names_are_distinct(self) -> bool {
        distinct_names(field_views(self.fields@))
    }

    /// A detail without fields.
    pub fn new() -> (r: RawDetail)
        ensures
            r@ == Seq::<FieldView>::empty(),
    {
        let r = RawDetail { fields: Vec::new() };
        r
    }

    /// A detail of the given fields.
    pub(crate) fn from_distinct(fields: Vec<Field>) -> (r: RawDetail)
        requires
            distinct_names(field_views(fields@)),
        ensures
            r@ == field_views(fields@),
    {
        RawDetail { fields }
    }

    /// The fields, in order.
    pub fn fields(&self) -> (r: &Vec<Field>)
        ensures
            field_views(r@) == self@,
            distinct_names(self@),
    {
        proof {
            use_type_invariant(self);
        }
        &self.fields
    }

    /// The number of fields.
    pub fn len(&self) -> (n: usize)
        ensures
            n == self@.len(),
    {
        self.fields.len()
    }

    /// The place of the field called `name`.
    pub fn find(&self, name: &str) -> (r: Option<usize>)
        ensures
            distinct_names(self@),
            r is Some <==> has_name(self@, name@),
            r matches Some(i) ==> i < self@.len() && self@[i as int].name == name@ && place_of(
                self@,
                name@,
            ) == i,
    {
        proof {
            use_type_invariant(self);
        }
        let mut i: usize = 0;
        while i < self.fields.len()
            invariant
                i <= self.fields.len(),
                distinct_names(field_views(self.fields@)),
                forall|k: int| 0 <= k < i ==> (#[trigger] field_views(self.fields@)[k]).name != name@,
            decreases self.fields.len() - i,
        {
            if same_text(self.fields[i].name.as_str(), name) {
                proof {
                    lemma_place_of(field_views(self.fields@), i as int);
                }
                return Some(i);
            }
            i = i + 1;
        }
        None
    }

    /// Is there a field called `name`?
    pub fn contains(&self, name: &str) -> (r: bool)
        ensures
            r == has_name(self@, name@),
    {
        self.find(name).is_some()
    }

    /// The value of the field called `name`.
    pub fn get(&self, name: &str) -> (r: Option<&Scalar>)
        ensures
            r is Some <==> has_name(self@, name@),
            r matches Some(v) ==> v@ == value_of(self@, name@),
    {
        match self.find(name) {
            Some(i) => Some(&self.fields[i].value),
            None => None,
        }
    }

    /// This detail without the field called `name`.
    pub fn without(&self, name: &str) -> (r: RawDetail)
        ensures
            r@ == self@.filter_map(drop_named(name@)),
    {
        proof {
            use_type_invariant(self);
        }
        let ghost all = field_views(self.fields@);
        let mut kept: Vec<Field> = Vec::new();
        let ghost mut sources: Seq<int> = Seq::empty();
        let mut i: usize = 0;
        while i < self.fields.len()
            invariant
                i <= self.fields.len(),
                all == field_views(self.fields@),
                distinct_names(all),
                field_views(kept@) == all.take(i as int).filter_map(drop_named(name@)),
                sources.len() == kept.len(),
                forall|j: int|
                    0 <= j < sources.len() ==> 0 <= #[trigger] sources[j] < i && all[sources[j]]
                        == field_views(kept@)[j],
                distinct_names(field_views(kept@)),
            decreases self.fields.len() - i,
        {
            let ghost before = field_views(kept@);
            proof {
                all.lemma_filter_map_take_succ(drop_named(name@), i as int);
            }
            if !same_text(self.fields[i].name.as_str(), name) {
                kept.push(self.fields[i].clone());
                proof {
                    let after = field_views(kept@);
                    sources = sources.push(i as int);
                    assert forall|a: int, b: int| 0 <= a < b < after.len() implies (
                    #[trigger] after[a]).name != (#[trigger] after[b]).name by {
                        if b == after.len() - 1 {
                            assert(all[sources[a]].name != all[i as int].name);
                        } else {
                            assert(before[a].name != before[b].name);
                        }
                    }
                }
            }
            i = i + 1;
        }
        assert(all.take(i as int) =~= all);
        RawDetail { fields: kept }
    }

    /// Sets the field called `name` to `value`: in place where there is one,
    /// at the end where there is none.
    pub fn insert(&mut self, name: String, value: Scalar)
        ensures
            distinct_names(final(self)@),
            has_name(old(self)@, name@) ==> final(self)@ == old(self)@.update(
                place_of(old(self)@, name@),
                FieldView { name: name@, value: value@ },
            ),
            !has_name(old(self)@, name@) ==> final(self)@ == old(self)@.push(
                FieldView { name: name@, value: value@ },
            ),
    {
        proof {
            use_type_invariant(&*self);
        }
        let ghost before = field_views(self.fields@);
        let found = self.find(name.as_str());
        let ghost added = FieldView { name: name@, value: value@ };
        let mut fields: Vec<Field> = Vec::new();
        core::mem::swap(&mut self.fields, &mut fields);
        match found {
            Some(i) => {
                fields.set(i, Field { name, value });
                assert(field_views(fields@) =~= before.update(i as int, added));
            },
            None => {
                fields.push(Field { name, value });
                assert(field_views(fields@) =~= before.push(added));
            },
        }
        core::mem::swap(&mut self.fields, &mut fields);
    }
}

} // verus!
