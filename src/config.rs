use vstd::prelude::*;
use vstd::string::StringExecFns;

verus! {

/// The six levels of HTML headings.
#[derive(Debug, Clone, Copy, PartialEq, Eq, Hash)]
pub enum HeadingLevel {
    H1,
    H2,
    H3,
    H4,
    H5,
    H6,
}

/// The number of a heading level: 1 for `H1` up to 6 for `H6`.
pub open spec fn level_number(level: HeadingLevel) -> nat {
    match level {
        HeadingLevel::H1 => 1,
        HeadingLevel::H2 => 2,
        HeadingLevel::H3 => 3,
        HeadingLevel::H4 => 4,
        HeadingLevel::H5 => 5,
        HeadingLevel::H6 => 6,
    }
}

impl HeadingLevel {
    pub fn to_usize(&self) -> (r: usize)
        ensures
            r == level_number(*self),
    {
        match self {
            HeadingLevel::H1 => 1,
            HeadingLevel::H2 => 2,
            HeadingLevel::H3 => 3,
            HeadingLevel::H4 => 4,
            HeadingLevel::H5 => 5,
            HeadingLevel::H6 => 6,
        }
    }
}

/// How the label of a section is shown.
#[derive(Debug, Clone, Copy, PartialEq, Eq, Hash, Default)]
pub enum SectionHeading {
    /// A heading that goes one level deeper with each level of nesting, from the given
    /// level for the outermost section.
    LeveledHeading(HeadingLevel),
    /// The same heading level for every section.
    SameHeading(HeadingLevel),
    /// Plain text, no heading.
    #[default]
    PlainText,
}

/// Settings that hold for a whole form.
#[derive(Debug, Clone, Copy, PartialEq, Eq, Hash, Default)]
pub struct FormConfiguration {
    pub section_label: SectionHeading,
}

/// The heading level of a section's label, or `None` where the label is plain text.
///
/// `name_len` is the length of the section's path, 1 for the outermost section. A leveled
/// heading goes one level down per level of nesting and stops at level 6.
pub open spec fn heading_level(section_label: SectionHeading, name_len: nat) -> Option<nat> {
    match section_label {
        SectionHeading::LeveledHeading(level) => {
            let depth = (name_len - 1) + level_number(level);
            Some(if depth >= 6 { 6 } else { depth as nat })
        },
        SectionHeading::SameHeading(level) => Some(level_number(level)),
        SectionHeading::PlainText => None,
    }
}

/// The heading level of a section's label, or `None` where the label is plain text: see
/// [`heading_level`].
pub fn section_heading_level(section_label: SectionHeading, name_len: usize) -> (r: Option<usize>)
    requires
        section_label is LeveledHeading ==> name_len >= 1,
    ensures
        match r {
            Some(k) => heading_level(section_label, name_len as nat) == Some(k as nat),
            None => heading_level(section_label, name_len as nat) is None,
        },
{
    match section_label {
        SectionHeading::LeveledHeading(level) => {
            let depth = name_len - 1;
            let lvl = level.to_usize();
            if depth >= 6 - lvl {
                Some(6)
            } else {
                Some(depth + lvl)
            }
        },
        SectionHeading::SameHeading(level) => Some(level.to_usize()),
        SectionHeading::PlainText => None,
    }
}

/// The kinds of text input a field may render as.
#[derive(Debug, Clone, Copy, PartialEq, Eq, Hash, Default)]
pub enum InputType {
    #[default]
    Text,
    Email,
    Password,
    Color,
    Date,
    Time,
    DatetimeLocal,
    Number,
    Tel,
    Url,
    Range,
}

/// The `type` attribute of an HTML input of kind `t`.
pub open spec fn html_input_type(t: InputType) -> Seq<char> {
    match t {
        InputType::Text => "text"@,
        InputType::Email => "email"@,
        InputType::Password => "password"@,
        InputType::Color => "color"@,
        InputType::Date => "date"@,
        InputType::Time => "time"@,
        InputType::DatetimeLocal => "datetime-local"@,
        InputType::Number => "number"@,
        InputType::Tel => "tel"@,
        InputType::Url => "url"@,
        InputType::Range => "range"@,
    }
}

impl InputType {
    /// The `type` attribute of the HTML input.
    pub fn html_type(&self) -> (r: &'static str)
        ensures
            r@ == html_input_type(*self),
    {
        match self {
            InputType::Text => "text",
            InputType::Email => "email",
            InputType::Password => "password",
            InputType::Color => "color",
            InputType::Date => "date",
            InputType::Time => "time",
            InputType::DatetimeLocal => "datetime-local",
            InputType::Number => "number",
            InputType::Tel => "tel",
            InputType::Url => "url",
            InputType::Range => "range",
        }
    }
}

/// The texts the form shows by itself, which an application may translate.
#[derive(Debug, Clone, Copy, PartialEq, Eq, Hash)]
pub enum FormMessage {
    SubmitButton,
    AddButton,
    RemoveButton,
    SubmitPendingMessage,
    SubmitSuccessMessage,
    SubmitErrorMessage,
}

/// The English text of `m`.
pub open spec fn message_text(m: FormMessage) -> Seq<char> {
    match m {
        FormMessage::SubmitButton => "Submit"@,
        FormMessage::AddButton => "Add"@,
        FormMessage::RemoveButton => "Remove"@,
        FormMessage::SubmitPendingMessage => "Submitting ..."@,
        FormMessage::SubmitSuccessMessage => "Form submitted successfully"@,
        FormMessage::SubmitErrorMessage => "Error submitting form"@,
    }
}

impl FormMessage {
    /// The English text, used where the application gives no translation.
    pub fn to_string(&self) -> (r: String)
        ensures
            r@ == message_text(*self),
    {
        match self {
            FormMessage::SubmitButton => String::from_str("Submit"),
            FormMessage::AddButton => String::from_str("Add"),
            FormMessage::RemoveButton => String::from_str("Remove"),
            FormMessage::SubmitPendingMessage => String::from_str("Submitting ..."),
            FormMessage::SubmitSuccessMessage => String::from_str("Form submitted successfully"),
            FormMessage::SubmitErrorMessage => String::from_str("Error submitting form"),
        }
    }
}

} // verus!
