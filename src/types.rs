use vstd::prelude::*;
use vstd::string::StrSliceExecFns;

pub use crate::color::{Color, ColorError};
pub use crate::datetime::{Date, DateTimeError, PrimitiveDateTime, Time};
pub use crate::file::{File, FileError};

verus! {

/// `s` holds the character `x`.
pub open spec fn holds_char(s: Seq<char>, x: char) -> bool {
    exists|i: int| 0 <= i < s.len() && s[i] == x
}

fn contains_char(s: &str, x: char) -> (r: bool)
    ensures
        r == holds_char(s@, x),
{
    let n = s.unicode_len();
    let mut i: usize = 0;
    while i < n
        invariant
            n == s@.len(),
            i <= n,
            forall|j: int| 0 <= j < i ==> s@[j] != x,
        decreases n - i,
    {
        if s.get_char(i) == x {
            return true;
        }
        i = i + 1;
    }
    false
}

/// An e-mail address: text that holds an `@`.
#[derive(Debug, Clone, PartialEq, Eq, Hash)]
pub struct Email(String);

/// Why a text is no e-mail address.
#[derive(Debug, Clone, Copy, PartialEq, Eq, Hash)]
pub enum EmailError {
    InvalidFormat,
}

impl EmailError {
    /// The message shown to the user.
    pub fn to_string(&self) -> (r: String)
        ensures
            r@ == "Invalid format"@,
    {
        String::from_str("Invalid format")
    }
}

impl View for Email {
    type V = Seq<char>;

    closed spec fn view(&self) -> Seq<char> {
        self.0@
    }
}

impl Email {
    /// The address `s`, if it holds an `@`.
    pub fn parse(s: &str) -> (r: Result<Email, EmailError>)
        ensures
            holds_char(s@, '@') ==> (r matches Ok(e) && e@ == s@),
            !holds_char(s@, '@') ==> r == Err::<Email, EmailError>(EmailError::InvalidFormat),
    {
        if contains_char(s, '@') {
            Ok(Email(String::from_str(s)))
        } else {
            Err(EmailError::InvalidFormat)
        }
    }

    /// The address.
    pub fn as_str(&self) -> (r: &str)
        ensures
            r@ == self@,
    {
        self.0.as_str()
    }

    /// The address.
    pub fn into_string(self) -> (r: String)
        ensures
            r@ == self@,
    {
        self.0
    }

    /// The address.
    pub fn to_string(&self) -> (r: String)
        ensures
            r@ == self@,
    {
        self.0.clone()
    }
}

/// Text with at least one character.
#[derive(Debug, Clone, PartialEq, Eq, Hash)]
pub struct NonEmptyString(String);

/// Why a text is refused as a [`NonEmptyString`].
#[derive(Debug, Clone, Copy, PartialEq, Eq, Hash)]
pub enum NonEmptyStringError {
    IsEmpty,
}

impl NonEmptyStringError {
    /// The message shown to the user.
    pub fn to_string(&self) -> (r: String)
        ensures
            r@ == "Input cannot be empty"@,
    {
        String::from_str("Input cannot be empty")
    }
}

impl View for NonEmptyString {
    type V = Seq<char>;

    closed spec fn view(&self) -> Seq<char> {
        self.0@
    }
}

impl NonEmptyString {
    /// The text `s`, unless it is empty.
    pub fn parse(s: &str) -> (r: Result<NonEmptyString, NonEmptyStringError>)
        ensures
            s@.len() > 0 ==> (r matches Ok(t) && t@ == s@),
            s@.len() == 0 ==> r == Err::<NonEmptyString, NonEmptyStringError>(
                NonEmptyStringError::IsEmpty,
            ),
    {
        if s.unicode_len() == 0 {
            Err(NonEmptyStringError::IsEmpty)
        } else {
            Ok(NonEmptyString(String::from_str(s)))
        }
    }

    /// The text.
    pub fn as_str(&self) -> (r: &str)
        ensures
            r@ == self@,
    {
        self.0.as_str()
    }

    /// The text.
    pub fn into_string(self) -> (r: String)
        ensures
            r@ == self@,
    {
        self.0
    }

    /// The text.
    pub fn to_string(&self) -> (r: String)
        ensures
            r@ == self@,
    {
        self.0.clone()
    }
}

/// The characters a telephone number may hold: digits, `+`, `-`, space and parentheses.
pub open spec fn is_tel_char(c: char) -> bool {
    ('0' <= c && c <= '9') || c == '+' || c == '-' || c == ' ' || c == '(' || c == ')'
}

/// A telephone number: one or more of the characters [`is_tel_char`] allows.
#[derive(Debug, Clone, PartialEq, Eq, Hash)]
pub struct Tel(String);

/// Why a text is no telephone number.
#[derive(Debug, Clone, Copy, PartialEq, Eq, Hash)]
pub enum TelError {
    InvalidFormat,
}

impl TelError {
    /// The message shown to the user.
    pub fn to_string(&self) -> (r: String)
        ensures
            r@ == "Invalid format"@,
    {
        String::from_str("Invalid format")
    }
}

impl View for Tel {
    type V = Seq<char>;

    closed spec fn view(&self) -> Seq<char> {
        self.0@
    }
}

/// `s` is a telephone number.
pub open spec fn is_tel(s: Seq<char>) -> bool {
    s.len() > 0 && forall|i: int| 0 <= i < s.len() ==> is_tel_char(#[trigger] s[i])
}

impl Tel {
    /// The number `s`, if it is one.
    pub fn parse(s: &str) -> (r: Result<Tel, TelError>)
        ensures
            is_tel(s@) ==> (r matches Ok(t) && t@ == s@),
            !is_tel(s@) ==> r == Err::<Tel, TelError>(TelError::InvalidFormat),
    {
        let n = s.unicode_len();
        let mut i: usize = 0;
        while i < n
            invariant
                n == s@.len(),
                i <= n,
                forall|j: int| 0 <= j < i ==> is_tel_char(#[trigger] s@[j]),
            decreases n - i,
        {
            let c = s.get_char(i);
            if !(('0' <= c && c <= '9') || c == '+' || c == '-' || c == ' ' || c == '(' || c
                == ')') {
                return Err(TelError::InvalidFormat);
            }
            i = i + 1;
        }
        if n == 0 {
            Err(TelError::InvalidFormat)
        } else {
            Ok(Tel(String::from_str(s)))
        }
    }

    /// The number.
    pub fn as_str(&self) -> (r: &str)
        ensures
            r@ == self@,
    {
        self.0.as_str()
    }

    /// The number.
    pub fn into_string(self) -> (r: String)
        ensures
            r@ == self@,
    {
        self.0
    }

    /// The number.
    pub fn to_string(&self) -> (r: String)
        ensures
            r@ == self@,
    {
        self.0.clone()
    }
}

/// A value the user may leave out: an empty input stands for no value.
#[derive(Debug, Clone, PartialEq, Eq, Hash)]
pub struct Optional<T>(Option<T>);

impl<T> Optional<T> {
    pub closed spec fn value(&self) -> Option<T> {
        self.0
    }

    /// The value `value`.
    pub fn some(value: T) -> (r: Optional<T>)
        ensures
            r.value() == Some(value),
    {
        Optional(Some(value))
    }

    /// `value` as it is: present or left out.
    pub fn from_option(value: Option<T>) -> (r: Optional<T>)
        ensures
            r.value() == value,
    {
        Optional(value)
    }

    /// The value, if present.
    pub fn into_option(self) -> (r: Option<T>)
        ensures
            r == self.value(),
    {
        self.0
    }

    /// The value, if present.
    pub fn as_option(&self) -> (r: &Option<T>)
        ensures
            *r == self.value(),
    {
        &self.0
    }

    /// The value of the input `s`: none where `s` is empty, else what `parse`, the field's
    /// own reading of text, makes of `s`.
    pub fn parse_with<E, F: FnOnce(&str) -> Result<T, E>>(s: &str, parse: F) -> (r: Result<
        Optional<T>,
        E,
    >)
        requires
            s@.len() > 0 ==> parse.requires((s,)),
        ensures
            s@.len() == 0 ==> (r matches Ok(o) && o.value() is None),
            s@.len() > 0 ==> exists|parsed: Result<T, E>|
                #[trigger] parse.ensures((s,), parsed) && match (r, parsed) {
                    (Ok(o), Ok(v)) => o.value() == Some(v),
                    (Err(e), Err(e2)) => e == e2,
                    _ => false,
                },
    {
        if s.unicode_len() == 0 {
            Ok(Optional(None))
        } else {
            match parse(s) {
                Ok(v) => Ok(Optional(Some(v))),
                Err(e) => Err(e),
            }
        }
    }
}

/// A box the user must tick.
#[derive(Debug, Clone, Copy, PartialEq, Eq, Hash, Default)]
pub struct Accept(bool);

/// Why an [`Accept`] is refused.
#[derive(Debug, Clone, Copy, PartialEq, Eq, Hash)]
pub enum AcceptError {
    NotAccepted,
}

impl AcceptError {
    /// The message shown to the user.
    pub fn to_string(&self) -> (r: String)
        ensures
            r@ == "This is required"@,
    {
        String::from_str("This is required")
    }
}

impl Accept {
    pub closed spec fn spec_value(&self) -> bool {
        self.0
    }

    /// The ticked box.
    pub closed spec fn ticked() -> Accept {
        Accept(true)
    }

    /// A ticked box; an unticked one is refused.
    pub fn try_from_bool(value: bool) -> (r: Result<Accept, AcceptError>)
        ensures
            value ==> r == Ok::<Accept, AcceptError>(Accept::ticked()) && Accept::ticked().spec_value(),
            !value ==> r == Err::<Accept, AcceptError>(AcceptError::NotAccepted),
    {
        if value {
            Ok(Accept(true))
        } else {
            Err(AcceptError::NotAccepted)
        }
    }

    /// Whether the box is ticked.
    pub fn value(&self) -> (r: bool)
        ensures
            r == self.spec_value(),
    {
        self.0
    }
}


impl std::str::FromStr for Email {
    type Err = EmailError;

    fn from_str(s: &str) -> Result<Email, EmailError> {
        Email::parse(s)
    }
}

impl std::str::FromStr for NonEmptyString {
    type Err = NonEmptyStringError;

    fn from_str(s: &str) -> Result<NonEmptyString, NonEmptyStringError> {
        NonEmptyString::parse(s)
    }
}

impl std::str::FromStr for Tel {
    type Err = TelError;

    fn from_str(s: &str) -> Result<Tel, TelError> {
        Tel::parse(s)
    }
}

impl TryFrom<bool> for Accept {
    type Error = AcceptError;

    fn try_from(value: bool) -> Result<Accept, AcceptError> {
        Accept::try_from_bool(value)
    }
}

impl vstd::std_specs::convert::TryFromSpecImpl<bool> for Accept {
    open spec fn obeys_try_from_spec() -> bool {
        true
    }

    open spec fn try_from_spec(v: bool) -> Result<Accept, AcceptError> {
        if v {
            Ok(Accept::ticked())
        } else {
            Err(AcceptError::NotAccepted)
        }
    }
}

impl From<Accept> for bool {
    fn from(a: Accept) -> bool {
        a.0
    }
}

impl vstd::std_specs::convert::FromSpecImpl<Accept> for bool {
    open spec fn obeys_from_spec() -> bool {
        true
    }

    open spec fn from_spec(a: Accept) -> bool {
        a.spec_value()
    }
}

} // verus!
