pub mod aggregate;
pub mod attributes;
pub mod color;
pub mod config;
pub mod datetime;
pub mod error;
pub mod file;
pub mod list;
pub mod name;
pub mod types;

pub use aggregate::{fold_list, merge_fields};
pub use config::{FormConfiguration, FormMessage, HeadingLevel, InputType, SectionHeading};
pub use error::{FieldError, FormError, RawValue};
pub use list::{ListItem, ListItems};
pub use name::{Name, NamePart};
