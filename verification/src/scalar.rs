//! The values that an edit can assign.

use vstd::prelude::*;

verus! {

/// A value of the document format: a string, an integer, a float, a boolean
/// or an array of such values.
///
/// A float is held as the decimal text that prints it, so that two floats are
/// the same value exactly when their texts are equal.
#[derive(Debug, PartialEq, Eq)]
pub enum Scalar {
    Str(String),
    Integer(i64),
    Float(String),
    Boolean(bool),
    Array(Vec<Scalar>),
}

/// The mathematical value of a [`Scalar`].
pub enum ScalarView {
    Str(Seq<char>),
    Integer(i64),
    Float(Seq<char>),
    Boolean(bool),
    Array(Seq<ScalarView>),
}

/// The value that `s` stands for.
pub open spec fn scalar_view(s: Scalar) -> ScalarView
    decreases s,
{
    match s {
        Scalar::Str(t) => ScalarView::Str(t@),
        Scalar::Integer(i) => ScalarView::Integer(i),
        Scalar::Float(t) => ScalarView::Float(t@),
        Scalar::Boolean(b) => ScalarView::Boolean(b),
        Scalar::Array(items) => ScalarView::Array(scalar_views(items@)),
    }
}

/// The values that the scalars of `items` stand for, in order.
pub open spec fn scalar_views(items: Seq<Scalar>) -> Seq<ScalarView>
    decreases items,
{
    Seq::new(
        items.len(),
        |i: int|
            if 0 <= i < items.len() {
                scalar_view(items[i])
            } else {
                ScalarView::Boolean(false)
            },
    )
}

impl View for Scalar {
    type V = ScalarView;

    open spec fn view(&self) -> ScalarView {
        scalar_view(*self)
    }
}

impl Clone for Scalar {
    fn clone(&self) -> (copy: Scalar)
        ensures
            copy@ == self@,
        decreases self,
    {
        match self {
            Scalar::Str(s) => Scalar::Str(s.clone()),
            Scalar::Integer(i) => Scalar::Integer(*i),
            Scalar::Float(t) => Scalar::Float(t.clone()),
            Scalar::Boolean(b) => Scalar::Boolean(*b),
            Scalar::Array(items) => {
                let mut copies: Vec<Scalar> = Vec::new();
                let mut i: usize = 0;
                while i < items.len()
                    invariant
                        i <= items.len(),
                        copies.len() == i,
                        *self == Scalar::Array(*items),
                        forall|j: int| 0 <= j < i ==> copies@[j]@ == items@[j]@,
                    decreases items.len() - i,
                {
                    assert(decreases_to!(*self => self->Array_0));
                    assert(decreases_to!(self->Array_0 => self->Array_0@));
                    assert(decreases_to!(self->Array_0@ => self->Array_0@[i as int]));
                    copies.push(items[i].clone());
                    i = i + 1;
                }
                assert(scalar_views(copies@) =~= scalar_views(items@));
                Scalar::Array(copies)
            },
        }
    }
}

impl Scalar {
    /// Whether two scalars are the same value.
    pub fn same_as(&self, other: &Scalar) -> (same: bool)
        ensures
            same == (self@ == other@),
        decreases self,
    {
        match self {
            Scalar::Str(a) => match other {
                Scalar::Str(b) => *a == *b,
                _ => false,
            },
            Scalar::Integer(a) => match other {
                Scalar::Integer(b) => *a == *b,
                _ => false,
            },
            Scalar::Float(a) => match other {
                Scalar::Float(b) => *a == *b,
                _ => false,
            },
            Scalar::Boolean(a) => match other {
                Scalar::Boolean(b) => *a == *b,
                _ => false,
            },
            Scalar::Array(a) => match other {
                Scalar::Array(b) => {
                    if a.len() != b.len() {
                        assert(scalar_views(a@).len() != scalar_views(b@).len());
                        return false;
                    }
                    let mut i: usize = 0;
                    while i < a.len()
                        invariant
                            i <= a.len(),
                            a.len() == b.len(),
                            *self == Scalar::Array(*a),
                            *other == Scalar::Array(*b),
                            forall|j: int| 0 <= j < i ==> a@[j]@ == b@[j]@,
                        decreases a.len() - i,
                    {
                        assert(decreases_to!(*self => self->Array_0));
                        assert(decreases_to!(self->Array_0 => self->Array_0@));
                        assert(decreases_to!(self->Array_0@ => self->Array_0@[i as int]));
                        if !a[i].same_as(&b[i]) {
                            assert(scalar_views(a@)[i as int] == a@[i as int]@);
                            assert(scalar_views(b@)[i as int] == b@[i as int]@);
                            return false;
                        }
                        i = i + 1;
                    }
                    assert(scalar_views(a@) =~= scalar_views(b@));
                    true
                },
                _ => false,
            },
        }
    }
}

#[verifier::external_type_specification]
#[verifier::external_body]
pub struct ExValue(toml_edit::Value);

/// The scalar that a value of the document format is, if it is one: a string,
/// an integer, a boolean, a float by the decimal text that prints it, or an
/// array whose items all are scalars. A date and an inline table are none, nor
/// is an array that holds one.
pub uninterp spec fn value_scalar(value: toml_edit::Value) -> Option<ScalarView>;

/// Whether a value is an inline table.
pub uninterp spec fn value_inline(value: toml_edit::Value) -> bool;

/// The decor around a value.
pub uninterp spec fn value_decor(value: toml_edit::Value) -> crate::document::DecorView;

/// The float that a decimal text reads as, as a scalar.
pub uninterp spec fn float_of_text(text: Seq<char>) -> Option<ScalarView>;

/// What a literal of the document format reads as: nothing where it is no
/// literal, else the scalar it is, if it is one.
pub uninterp spec fn literal_value(text: Seq<char>) -> Option<Option<ScalarView>>;

/// The scalars of `values`, if every one of them is a scalar.
pub open spec fn all_scalars(values: Seq<toml_edit::Value>) -> Option<Seq<ScalarView>> {
    if forall|i: int| 0 <= i < values.len() ==> (#[trigger] value_scalar(values[i])) is Some {
        Some(Seq::new(values.len(), |i: int| value_scalar(values[i])->0))
    } else {
        None
    }
}

/// Converts a `toml_edit::Value` to a [`Scalar`], variant by variant.
#[verifier::external_body]
pub(crate) fn read_value(value: &toml_edit::Value) -> (r: Option<Scalar>)
    ensures
        match r {
            Some(s) => value_scalar(*value) == Some(s@),
            None => value_scalar(*value) is None,
        },
{
    match value {
        toml_edit::Value::String(s) => Some(Scalar::Str(s.value().clone())),
        toml_edit::Value::Integer(i) => Some(Scalar::Integer(*i.value())),
        toml_edit::Value::Float(x) => Some(Scalar::Float(x.value().to_string())),
        toml_edit::Value::Boolean(b) => Some(Scalar::Boolean(*b.value())),
        toml_edit::Value::Array(a) => a.iter().map(read_value).collect::<Option<Vec<Scalar>>>().map(Scalar::Array),
        toml_edit::Value::Datetime(_) => None,
        toml_edit::Value::InlineTable(_) => None,
    }
}

/// `toml_edit::Value::from_str`: the value that a literal is.
#[verifier::external_body]
pub(crate) fn parse_value(text: &str) -> (r: Result<toml_edit::Value, toml_edit::TomlError>)
    ensures
        match r {
            Ok(value) => literal_value(text@) == Some(value_scalar(value)),
            Err(_) => literal_value(text@) is None,
        },
{
    text.parse::<toml_edit::Value>()
}

/// `From<&str>` of `toml_edit::Value`: a string value.
#[verifier::external_body]
pub(crate) fn string_value(s: &str) -> (value: toml_edit::Value)
    ensures
        value_scalar(value) == Some(ScalarView::Str(s@)),
{
    toml_edit::Value::from(s)
}

/// `From<i64>` of `toml_edit::Value`: an integer value.
#[verifier::external_body]
pub(crate) fn integer_value(i: i64) -> (value: toml_edit::Value)
    ensures
        value_scalar(value) == Some(ScalarView::Integer(i)),
{
    toml_edit::Value::from(i)
}

/// `From<bool>` of `toml_edit::Value`: a boolean value.
#[verifier::external_body]
pub(crate) fn boolean_value(b: bool) -> (value: toml_edit::Value)
    ensures
        value_scalar(value) == Some(ScalarView::Boolean(b)),
{
    toml_edit::Value::from(b)
}

/// `toml_edit::Value::Float` of what std's `str::parse` reads the text as: a
/// float value, where the text is a decimal float.
#[verifier::external_body]
pub(crate) fn float_value(text: &str) -> (r: Option<toml_edit::Value>)
    ensures
        match r {
            Some(value) => float_of_text(text@) is Some && value_scalar(value) == float_of_text(text@),
            None => float_of_text(text@) is None,
        },
{
    Some(toml_edit::Value::Float(toml_edit::Formatted::new(text.parse().ok()?)))
}

/// `FromIterator` of `toml_edit::Array`: an array value of the given items.
#[verifier::external_body]
pub(crate) fn array_value(items: Vec<toml_edit::Value>) -> (value: toml_edit::Value)
    ensures
        value_scalar(value) == match all_scalars(items@) {
            Some(views) => Some(ScalarView::Array(views)),
            None => None,
        },
{
    toml_edit::Value::Array(items.into_iter().collect())
}

/// Whether a scalar can be written to a document: every float text in it
/// is the text that prints some float.
pub open spec fn storable(s: ScalarView) -> bool
    decreases s,
{
    match s {
        ScalarView::Float(t) => float_of_text(t) == Some(ScalarView::Float(t)),
        ScalarView::Array(items) => forall|i: int| 0 <= i < items.len() ==> storable(#[trigger] items[i]),
        _ => true,
    }
}

/// An array is storable exactly when its items are.
pub proof fn lemma_storable_array(items: Seq<ScalarView>)
    ensures
        storable(ScalarView::Array(items)) <==> forall|j: int|
            0 <= j < items.len() ==> storable(#[trigger] items[j]),
{
    let a = ScalarView::Array(items);
    assert(decreases_to!(a => a->Array_0));
    assert forall|j: int| 0 <= j < items.len() implies decreases_to!(items => #[trigger] items[j]) by {}
}

impl Scalar {
    /// The value of the document format that is this scalar.
    pub(crate) fn to_value(&self) -> (r: Option<toml_edit::Value>)
        ensures
            match r {
                Some(value) => storable(self@) && value_scalar(value) == Some(self@),
                None => !storable(self@),
            },
        decreases self,
    {
        match self {
            Scalar::Str(s) => Some(string_value(s.as_str())),
            Scalar::Integer(i) => Some(integer_value(*i)),
            Scalar::Boolean(b) => Some(boolean_value(*b)),
            Scalar::Float(t) => match float_value(t.as_str()) {
                Some(value) => match read_value(&value) {
                    Some(back) => if back.same_as(self) {
                        Some(value)
                    } else {
                        None
                    },
                    None => None,
                },
                None => None,
            },
            Scalar::Array(items) => {
                let mut values: Vec<toml_edit::Value> = Vec::new();
                let mut i: usize = 0;
                while i < items.len()
                    invariant
                        i <= items.len(),
                        values.len() == i,
                        *self == Scalar::Array(*items),
                        forall|j: int| 0 <= j < i ==> storable(#[trigger] items@[j]@),
                        forall|j: int| 0 <= j < i ==> value_scalar(#[trigger] values@[j]) == Some(items@[j]@),
                    decreases items.len() - i,
                {
                    assert(decreases_to!(*self => self->Array_0));
                    assert(decreases_to!(self->Array_0 => self->Array_0@));
                    assert(decreases_to!(self->Array_0@ => self->Array_0@[i as int]));
                    match items[i].to_value() {
                        Some(value) => {
                            values.push(value);
                        },
                        None => {
                            assert(scalar_views(items@)[i as int] == items@[i as int]@);
                            assert(!storable(scalar_views(items@)[i as int]));
                            assert(self@ == ScalarView::Array(scalar_views(items@)));
                            proof {
                                lemma_storable_array(scalar_views(items@));
                            }
                            return None;
                        },
                    }
                    i = i + 1;
                }
                proof {
                    lemma_storable_array(scalar_views(items@));
                    assert(all_scalars(values@) is Some);
                    assert(all_scalars(values@)->0 =~= scalar_views(items@));
                    assert forall|j: int| 0 <= j < scalar_views(items@).len() implies storable(
                        #[trigger] scalar_views(items@)[j],
                    ) by {
                        assert(storable(items@[j]@));
                    }
                }
                Some(array_value(values))
            },
        }
    }

    /// Whether this scalar can be written to a document.
    pub fn is_storable(&self) -> (r: bool)
        ensures
            r == storable(self@),
    {
        self.to_value().is_some()
    }
}

} // verus!
