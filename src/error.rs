use vstd::prelude::*;
use vstd::string::StringExecFns;

use crate::name::{Name, PartView};

verus! {

/// The text a user had entered into a field, where the field holds text.
#[derive(Clone, Debug)]
pub enum RawValue {
    String(String),
    Other,
}

/// A field that failed to parse or validate: where it is, and why.
#[derive(Clone, Debug)]
pub struct FieldError {
    name: Name,
    error: String,
    raw_value: RawValue,
}

/// The mathematical value of a [`FieldError`].
pub struct FieldErrorView {
    pub name: Seq<PartView>,
    pub message: Seq<char>,
    pub raw_value: Option<Seq<char>>,
}

impl View for FieldError {
    type V = FieldErrorView;

    closed spec fn view(&self) -> FieldErrorView {
        FieldErrorView {
            name: self.name@,
            message: self.error@,
            raw_value: match self.raw_value {
                RawValue::String(s) => Some(s@),
                RawValue::Other => None,
            },
        }
    }
}

impl FieldError {
    /// An error of the field `name`, whose text input was `raw_value`.
    pub fn new_string(name: Name, err: String, raw_value: String) -> (r: FieldError)
        ensures
            r@ == (FieldErrorView { name: name@, message: err@, raw_value: Some(raw_value@) }),
    {
        FieldError { name, error: err, raw_value: RawValue::String(raw_value) }
    }

    /// An error of the field `name`, whose input was not text.
    pub fn new(name: Name, err: String) -> (r: FieldError)
        ensures
            r@ == (FieldErrorView { name: name@, message: err@, raw_value: None }),
    {
        FieldError { name, error: err, raw_value: RawValue::Other }
    }

    /// The cause, as shown to the user.
    pub fn inner(&self) -> (r: &str)
        ensures
            r@ == self@.message,
    {
        self.error.as_str()
    }

    /// The path of the field that failed.
    pub fn name(&self) -> (r: Name)
        ensures
            r@ == self@.name,
    {
        self.name
    }

    /// What the user had entered, where the field holds text.
    pub fn raw_value(&self) -> (r: Option<&str>)
        ensures
            r matches Some(s) ==> self@.raw_value == Some(s@),
            r is None ==> self@.raw_value is None,
    {
        match &self.raw_value {
            RawValue::String(s) => Some(s.as_str()),
            RawValue::Other => None,
        }
    }

    /// The cause, as shown to the user.
    pub fn to_string(&self) -> (r: String)
        ensures
            r@ == self@.message,
    {
        self.error.clone()
    }
}

/// The messages of `errors`, each on a line of its own.
pub open spec fn error_lines(errors: Seq<FieldError>) -> Seq<char>
    decreases errors.len(),
{
    if errors.len() == 0 {
        Seq::empty()
    } else {
        error_lines(errors.drop_last()) + errors.last()@.message + seq!['\n']
    }
}

/// The failures of a whole form, in the order in which they were found.
#[derive(Clone, Debug)]
pub struct FormError {
    errors: Vec<FieldError>,
}

impl View for FormError {
    type V = Seq<FieldError>;

    closed spec fn view(&self) -> Seq<FieldError> {
        self.errors@
    }
}

impl FormError {
    /// No failures yet.
    pub fn new() -> (r: FormError)
        ensures
            r@ == Seq::<FieldError>::empty(),
    {
        FormError { errors: Vec::new() }
    }

    /// The failures `errors`, in that order.
    pub fn from_errors(errors: Vec<FieldError>) -> (r: FormError)
        ensures
            r@ == errors@,
    {
        FormError { errors }
    }

    /// The single failure `err`.
    pub fn from_error(err: FieldError) -> (r: FormError)
        ensures
            r@ == seq![err],
    {
        let mut errors = Vec::new();
        errors.push(err);
        FormError { errors }
    }

    /// Appends the failures of `other`, keeping their order.
    pub fn extend(&mut self, other: FormError)
        ensures
            final(self)@ == old(self)@ + other@,
    {
        let mut more = other.errors;
        self.errors.append(&mut more);
    }

    /// Number of failures.
    pub fn len(&self) -> (r: usize)
        ensures
            r == self@.len(),
    {
        self.errors.len()
    }

    /// The failures, in order.
    pub fn errors(&self) -> (r: &Vec<FieldError>)
        ensures
            r@ == self@,
    {
        &self.errors
    }

    /// The failures, in order.
    pub fn into_errors(self) -> (r: Vec<FieldError>)
        ensures
            r@ == self@,
    {
        self.errors
    }

    /// The messages, each on a line of its own.
    pub fn to_string(&self) -> (r: String)
        ensures
            r@ == error_lines(self@),
    {
        let mut out = String::new();
        let mut k: usize = 0;
        proof {
            reveal_strlit("\n");
            assert("\n"@ =~= seq!['\n']);
        }
        while k < self.errors.len()
            invariant
                "\n"@ == seq!['\n'],
                k <= self@.len(),
                out@ == error_lines(self@.take(k as int)),
            decreases self@.len() - k,
        {
            let err = &self.errors[k];
            let message = err.inner();
            out.append(message);
            out.append("\n");
            proof {
                assert(self@.take(k + 1).drop_last() =~= self@.take(k as int));
            }
            k = k + 1;
        }
        assert(self@.take(k as int) =~= self@);
        out
    }
}

} // verus!
