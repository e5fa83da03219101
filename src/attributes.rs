use vstd::prelude::*;
use vstd::string::{StrSliceExecFns, StringExecFns};

use crate::name::unsigned_decimal;

verus! {

/// The value written after `key =` in a `#[form(...)]` attribute.
pub enum AttrValue {
    /// A string literal, with its value.
    Str(String),
    /// An integer literal, with its base-ten digits.
    Int(String),
    /// Any other expression.
    Other,
}

/// What the `#[form(...)]` attributes of a type, a field or a variant say.
pub struct FieldAttributes {
    pub label: Option<AttrValue>,
    pub description: Option<AttrValue>,
    pub render_as: Option<String>,
    pub class: Option<String>,
    pub columns: Option<u32>,
    pub colspan: Option<u32>,
    pub placeholder: Option<String>,
}

/// `s` read as a `u32`: an optional `+`, then base-ten digits whose value fits.
pub open spec fn decimal_u32(s: Seq<char>) -> Option<u32> {
    match unsigned_decimal(s) {
        Some(v) => if v <= u32::MAX {
            Some(v as u32)
        } else {
            None
        },
        None => None,
    }
}

/// The attributes after `key = v` is read. Unknown keys are ignored; so are `render_as`,
/// `class` and `placeholder` unless `v` is a string literal, and `columns` and `colspan`
/// unless `v` is an integer literal that fits in a `u32`.
pub open spec fn applied(a: FieldAttributes, key: Seq<char>, v: AttrValue) -> FieldAttributes {
    if key == "label"@ {
        FieldAttributes { label: Some(v), ..a }
    } else if key == "description"@ {
        FieldAttributes { description: Some(v), ..a }
    } else if key == "render_as"@ {
        match v {
            AttrValue::Str(s) => FieldAttributes { render_as: Some(s), ..a },
            _ => a,
        }
    } else if key == "class"@ {
        match v {
            AttrValue::Str(s) => FieldAttributes { class: Some(s), ..a },
            _ => a,
        }
    } else if key == "columns"@ {
        match v {
            AttrValue::Int(d) => match decimal_u32(d@) {
                Some(n) => FieldAttributes { columns: Some(n), ..a },
                None => a,
            },
            _ => a,
        }
    } else if key == "colspan"@ {
        match v {
            AttrValue::Int(d) => match decimal_u32(d@) {
                Some(n) => FieldAttributes { colspan: Some(n), ..a },
                None => a,
            },
            _ => a,
        }
    } else if key == "placeholder"@ {
        match v {
            AttrValue::Str(s) => FieldAttributes { placeholder: Some(s), ..a },
            _ => a,
        }
    } else {
        a
    }
}

/// The attributes after the pairs `pairs` are read, in order; a later pair overrides an
/// earlier one with the same key.
pub open spec fn applied_all(a: FieldAttributes, pairs: Seq<(String, AttrValue)>) -> FieldAttributes
    decreases pairs.len(),
{
    if pairs.len() == 0 {
        a
    } else {
        let (key, v) = pairs.last();
        applied(applied_all(a, pairs.drop_last()), key@, v)
    }
}

/// Relies on `u32`'s `FromStr` (through `str::parse`): an optional `+`, then base-ten
/// digits whose value fits in `u32`; anything else is an error.
#[verifier::external_body]
fn parse_u32(s: &str) -> (r: Option<u32>)
    ensures
        r == decimal_u32(s@),
{
    s.parse::<u32>().ok()
}

/// Whether `a` and `b` are the same text.
fn same_text(a: &str, b: &str) -> (r: bool)
    ensures
        r == (a@ == b@),
{
    let n = a.unicode_len();
    if n != b.unicode_len() {
        return false;
    }
    let mut i: usize = 0;
    while i < n
        invariant
            n == a@.len(),
            n == b@.len(),
            i <= n,
            forall|j: int| 0 <= j < i ==> a@[j] == b@[j],
        decreases n - i,
    {
        if a.get_char(i) != b.get_char(i) {
            return false;
        }
        i = i + 1;
    }
    assert(a@ =~= b@);
    true
}

impl FieldAttributes {
    /// No attribute read yet.
    pub fn new() -> (r: FieldAttributes)
        ensures
            r == FieldAttributes::new_spec(),
    {
        FieldAttributes {
            label: None,
            description: None,
            render_as: None,
            class: None,
            columns: None,
            colspan: None,
            placeholder: None,
        }
    }

    /// Reads the pair `key = value`: see [`applied`].
    pub fn apply(&mut self, key: &str, value: AttrValue)
        ensures
            *final(self) == applied(*old(self), key@, value),
    {
        if same_text(key, "label") {
            self.label = Some(value);
        } else if same_text(key, "description") {
            self.description = Some(value);
        } else if same_text(key, "render_as") {
            if let AttrValue::Str(s) = value {
                self.render_as = Some(s);
            }
        } else if same_text(key, "class") {
            if let AttrValue::Str(s) = value {
                self.class = Some(s);
            }
        } else if same_text(key, "columns") {
            if let AttrValue::Int(d) = value {
                if let Some(n) = parse_u32(d.as_str()) {
                    self.columns = Some(n);
                }
            }
        } else if same_text(key, "colspan") {
            if let AttrValue::Int(d) = value {
                if let Some(n) = parse_u32(d.as_str()) {
                    self.colspan = Some(n);
                }
            }
        } else if same_text(key, "placeholder") {
            if let AttrValue::Str(s) = value {
                self.placeholder = Some(s);
            }
        }
    }

    /// The attributes that the pairs `pairs` give, read in order.
    pub fn from_pairs(pairs: Vec<(String, AttrValue)>) -> (r: FieldAttributes)
        ensures
            r == applied_all(FieldAttributes::new_spec(), pairs@),
    {
        let mut attrs = FieldAttributes::new();
        let ghost all = pairs@;
        for pair in it: pairs.into_iter()
            invariant
                it.seq() == all,
                attrs == applied_all(FieldAttributes::new_spec(), all.take(it.index() as int)),
        {
            proof {
                assert(all.take(it.index() + 1).drop_last() =~= all.take(it.index() as int));
            }
            let (key, value) = pair;
            attrs.apply(key.as_str(), value);
        }
        proof {
            assert(all.take(all.len() as int) =~= all);
        }
        attrs
    }

    /// No attribute read yet.
    pub open spec fn new_spec() -> FieldAttributes {
        FieldAttributes {
            label: None,
            description: None,
            render_as: None,
            class: None,
            columns: None,
            colspan: None,
            placeholder: None,
        }
    }

    /// The configuration that a field's widget receives. The label must be given, as a
    /// string literal; a description, if given, must be a string literal too.
    pub fn to_field_configuration(self) -> (r: Result<FieldConfiguration, AttributeError>)
        ensures
            match (self.label, self.description) {
                (None, _) => r == Err::<FieldConfiguration, AttributeError>(
                    AttributeError::MissingLabel,
                ),
                (Some(AttrValue::Str(label)), None) => r == Ok::<
                    FieldConfiguration,
                    AttributeError,
                >(
                    FieldConfiguration {
                        label: Some(label),
                        description: None,
                        class: self.class,
                        colspan: self.colspan,
                        placeholder: self.placeholder,
                    },
                ),
                (Some(AttrValue::Str(label)), Some(AttrValue::Str(description))) => r == Ok::<
                    FieldConfiguration,
                    AttributeError,
                >(
                    FieldConfiguration {
                        label: Some(label),
                        description: Some(description),
                        class: self.class,
                        colspan: self.colspan,
                        placeholder: self.placeholder,
                    },
                ),
                _ => r == Err::<FieldConfiguration, AttributeError>(
                    AttributeError::UnsupportedExpression,
                ),
            },
    {
        let label = match self.label {
            None => return Err(AttributeError::MissingLabel),
            Some(AttrValue::Str(label)) => label,
            Some(_) => return Err(AttributeError::UnsupportedExpression),
        };
        let description = match self.description {
            None => None,
            Some(AttrValue::Str(description)) => Some(description),
            Some(_) => return Err(AttributeError::UnsupportedExpression),
        };
        Ok(
            FieldConfiguration {
                label: Some(label),
                description,
                class: self.class,
                colspan: self.colspan,
                placeholder: self.placeholder,
            },
        )
    }
}

/// What the widget of a field is configured with.
pub struct FieldConfiguration {
    pub label: Option<String>,
    pub description: Option<String>,
    pub class: Option<String>,
    pub colspan: Option<u32>,
    pub placeholder: Option<String>,
}

/// Attributes that cannot be turned into a form.
pub enum AttributeError {
    /// A field or variant has no label.
    MissingLabel,
    /// A label or description is not a string literal.
    UnsupportedExpression,
    /// `render_as` names no known layout.
    UnsupportedRenderAs(String),
}

/// How the fields of a struct are laid out.
#[derive(Debug, Clone, Copy, PartialEq, Eq, Hash)]
pub enum SectionLayout {
    /// All fields in one section (`render_as = "section"`, the default).
    Section,
    /// One field per page (`render_as = "paginate"`).
    Paginated,
}

/// How the variant of an enum is chosen.
#[derive(Debug, Clone, Copy, PartialEq, Eq, Hash)]
pub enum VariantSelector {
    /// Radio buttons (`render_as = "radio"`, the default).
    Radio,
    /// A drop-down list (`render_as = "select"`).
    Select,
}

/// The layout that `render_as` names for a struct.
pub fn struct_layout(render_as: Option<String>) -> (r: Result<SectionLayout, AttributeError>)
    ensures
        match render_as {
            None => r == Ok::<SectionLayout, AttributeError>(SectionLayout::Section),
            Some(s) => if s@ == "section"@ {
                r == Ok::<SectionLayout, AttributeError>(SectionLayout::Section)
            } else if s@ == "paginate"@ {
                r == Ok::<SectionLayout, AttributeError>(SectionLayout::Paginated)
            } else {
                r == Err::<SectionLayout, AttributeError>(AttributeError::UnsupportedRenderAs(s))
            },
        },
{
    match render_as {
        None => Ok(SectionLayout::Section),
        Some(s) => {
            if same_text(s.as_str(), "section") {
                Ok(SectionLayout::Section)
            } else if same_text(s.as_str(), "paginate") {
                Ok(SectionLayout::Paginated)
            } else {
                Err(AttributeError::UnsupportedRenderAs(s))
            }
        },
    }
}

/// The variant selector that `render_as` names for an enum.
pub fn variant_selector(render_as: Option<String>) -> (r: Result<VariantSelector, AttributeError>)
    ensures
        match render_as {
            None => r == Ok::<VariantSelector, AttributeError>(VariantSelector::Radio),
            Some(s) => if s@ == "radio"@ {
                r == Ok::<VariantSelector, AttributeError>(VariantSelector::Radio)
            } else if s@ == "select"@ {
                r == Ok::<VariantSelector, AttributeError>(VariantSelector::Select)
            } else {
                r == Err::<VariantSelector, AttributeError>(
                    AttributeError::UnsupportedRenderAs(s),
                )
            },
        },
{
    match render_as {
        None => Ok(VariantSelector::Radio),
        Some(s) => {
            if same_text(s.as_str(), "radio") {
                Ok(VariantSelector::Radio)
            } else if same_text(s.as_str(), "select") {
                Ok(VariantSelector::Select)
            } else {
                Err(AttributeError::UnsupportedRenderAs(s))
            }
        },
    }
}

/// The CSS class of an enum's container: `enum`, then the class the attributes give.
pub fn enum_class(class: Option<String>) -> (r: String)
    ensures
        match class {
            None => r@ == "enum"@,
            Some(c) => r@ == "enum "@ + c@,
        },
{
    match class {
        None => String::from_str("enum"),
        Some(c) => {
            let mut out = String::from_str("enum ");
            out.append(c.as_str());
            out
        },
    }
}

impl AttributeError {
    /// The message of the compile error.
    pub fn to_string(&self) -> (r: String)
        ensures
            match self {
                AttributeError::MissingLabel => r@ == "Label is required"@,
                AttributeError::UnsupportedExpression => r@
                    == "Only string literals are supported"@,
                AttributeError::UnsupportedRenderAs(s) => r@ == "Unsupported render_as type: "@
                    + s@,
            },
    {
        match self {
            AttributeError::MissingLabel => String::from_str("Label is required"),
            AttributeError::UnsupportedExpression => String::from_str(
                "Only string literals are supported",
            ),
            AttributeError::UnsupportedRenderAs(s) => {
                let mut out = String::from_str("Unsupported render_as type: ");
                out.append(s.as_str());
                out
            },
        }
    }
}

} // verus!
