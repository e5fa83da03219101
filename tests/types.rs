use formidable::config::section_heading_level;
use formidable::types::{
    Accept, AcceptError, Color, ColorError, Date, Email, EmailError, File, FileError,
    NonEmptyString, PrimitiveDateTime, Time,
    NonEmptyStringError, Optional, Tel, TelError,
};
use formidable::file::{file_state_after, initial_file_state};
use formidable::{FormMessage, HeadingLevel, InputType, SectionHeading};

#[test]
fn email_needs_an_at_sign() {
    let e = Email::parse("me@example.org").unwrap();
    assert_eq!(e.as_str(), "me@example.org");
    assert_eq!(e.to_string(), "me@example.org");
    assert_eq!(Email::parse("example.org"), Err(EmailError::InvalidFormat));
    assert_eq!(Email::parse(""), Err(EmailError::InvalidFormat));
    assert_eq!(EmailError::InvalidFormat.to_string(), "Invalid format");
    let parsed: Result<Email, EmailError> = "@".parse();
    assert_eq!(parsed.unwrap().into_string(), "@");
}

#[test]
fn non_empty_string_refuses_empty_input() {
    assert_eq!(NonEmptyString::parse(" ").unwrap().as_str(), " ");
    assert_eq!(NonEmptyString::parse(""), Err(NonEmptyStringError::IsEmpty));
    assert_eq!(NonEmptyStringError::IsEmpty.to_string(), "Input cannot be empty");
}

#[test]
fn tel_allows_digits_and_punctuation() {
    assert_eq!(Tel::parse("+41 (0)44-123 45 67").unwrap().as_str(), "+41 (0)44-123 45 67");
    assert_eq!(Tel::parse(""), Err(TelError::InvalidFormat));
    assert_eq!(Tel::parse("044 123 x"), Err(TelError::InvalidFormat));
    assert_eq!(Tel::parse("٣٣"), Err(TelError::InvalidFormat));
    assert_eq!(TelError::InvalidFormat.to_string(), "Invalid format");
}

#[test]
fn optional_empty_input_is_none() {
    let o: Result<Optional<Email>, EmailError> = Optional::parse_with("", Email::parse);
    assert_eq!(o.unwrap().into_option(), None);
    let o = Optional::parse_with("a@b", Email::parse);
    assert_eq!(o.unwrap().into_option().unwrap().as_str(), "a@b");
    let o = Optional::parse_with("ab", Email::parse);
    assert_eq!(o, Err(EmailError::InvalidFormat));
    let o = Optional::parse_with("", |_: &str| -> Result<u8, ()> { panic!("not called") });
    assert_eq!(o.unwrap().into_option(), None);
    assert_eq!(Optional::some(3).into_option(), Some(3));
    assert_eq!(Optional::<u8>::from_option(None).as_option(), &None);
}

#[test]
fn accept_requires_a_tick() {
    assert!(Accept::try_from_bool(true).unwrap().value());
    assert_eq!(Accept::try_from(false), Err(AcceptError::NotAccepted));
    assert!(bool::from(Accept::try_from(true).unwrap()));
    assert_eq!(AcceptError::NotAccepted.to_string(), "This is required");
}

#[test]
fn color_reads_hex_triplets() {
    let c = Color::parse("#FF8000").unwrap();
    assert_eq!((c.r, c.g, c.b, c.a), (255, 128, 0, 255));
    assert_eq!(c.to_string(), "#ff8000");
    let c = Color::parse("#0a0B0c").unwrap();
    assert_eq!((c.r, c.g, c.b), (10, 11, 12));
    assert_eq!(c.to_string(), "#0a0b0c");
    let c = Color::parse("#+f+a+1").unwrap();
    assert_eq!((c.r, c.g, c.b), (15, 10, 1));
}

#[test]
fn color_refuses_other_text() {
    assert_eq!(Color::parse("FF8000"), Err(ColorError::InvalidFormat));
    assert_eq!(Color::parse("#FF800"), Err(ColorError::InvalidFormat));
    assert_eq!(Color::parse("#FF80000"), Err(ColorError::InvalidFormat));
    assert_eq!(Color::parse("#GG8000"), Err(ColorError::InvalidFormat));
    assert_eq!(Color::parse("#-18000"), Err(ColorError::InvalidFormat));
    assert_eq!(Color::parse("#é12345"), Err(ColorError::InvalidFormat));
    assert_eq!(ColorError::InvalidFormat.to_string(), "Invalid format");
}

#[test]
fn color_default_is_opaque_black() {
    let c = Color::default();
    assert_eq!((c.r, c.g, c.b, c.a), (0, 0, 0, 255));
    assert_eq!(c.to_string(), "#000000");
}

#[test]
fn file_keeps_its_parts() {
    let f = File::new("id.pdf".to_string(), "application/pdf".to_string(), vec![1, 2, 3]);
    assert_eq!(f.name(), "id.pdf");
    assert_eq!(f.content_type(), "application/pdf");
    assert_eq!(f.data(), &[1, 2, 3]);
    assert_eq!(f.to_string(), "id.pdf");
}

#[test]
fn file_input_states() {
    assert_eq!(initial_file_state(None), Err(FileError::NoFileSelected));
    let f = File::new("a".to_string(), "text/plain".to_string(), vec![]);
    assert_eq!(initial_file_state(Some(f.clone())), Ok(f.clone()));
    assert_eq!(file_state_after(None), Err(FileError::NoFileSelected));
    assert_eq!(file_state_after(Some(Err(()))), Err(FileError::UnknownFileError));
    assert_eq!(file_state_after(Some(Ok(f.clone()))), Ok(f));
    assert_eq!(FileError::FileTooLarge.to_string(), "File too large");
    assert_eq!(FileError::InvalidFileType.to_string(), "Invalid file type");
    assert_eq!(FileError::UnknownFileError.to_string(), "Unknown file error");
    assert_eq!(FileError::NoFileSelected.to_string(), "No file selected");
}

#[test]
fn heading_levels_count_from_one() {
    assert_eq!(HeadingLevel::H1.to_usize(), 1);
    assert_eq!(HeadingLevel::H4.to_usize(), 4);
    assert_eq!(HeadingLevel::H6.to_usize(), 6);
}

#[test]
fn section_headings_deepen_with_nesting() {
    let leveled = SectionHeading::LeveledHeading(HeadingLevel::H2);
    assert_eq!(section_heading_level(leveled, 1), Some(2));
    assert_eq!(section_heading_level(leveled, 3), Some(4));
    assert_eq!(section_heading_level(leveled, 16), Some(6));
    assert_eq!(section_heading_level(leveled, usize::MAX), Some(6));
    let same = SectionHeading::SameHeading(HeadingLevel::H3);
    assert_eq!(section_heading_level(same, 5), Some(3));
    assert_eq!(section_heading_level(SectionHeading::PlainText, 2), None);
    assert_eq!(SectionHeading::default(), SectionHeading::PlainText);
}

#[test]
fn input_types_name_html_inputs() {
    assert_eq!(InputType::Text.html_type(), "text");
    assert_eq!(InputType::DatetimeLocal.html_type(), "datetime-local");
    assert_eq!(InputType::Tel.html_type(), "tel");
    assert_eq!(InputType::default(), InputType::Text);
}

#[test]
fn form_messages_have_english_texts() {
    assert_eq!(FormMessage::SubmitButton.to_string(), "Submit");
    assert_eq!(FormMessage::AddButton.to_string(), "Add");
    assert_eq!(FormMessage::RemoveButton.to_string(), "Remove");
    assert_eq!(FormMessage::SubmitPendingMessage.to_string(), "Submitting ...");
    assert_eq!(FormMessage::SubmitSuccessMessage.to_string(), "Form submitted successfully");
    assert_eq!(FormMessage::SubmitErrorMessage.to_string(), "Error submitting form");
}

#[test]
fn dates_follow_the_gregorian_calendar() {
    assert!(Date::from_calendar_date(2024, 2, 29).is_some());
    assert!(Date::from_calendar_date(2000, 2, 29).is_some());
    assert!(Date::from_calendar_date(2023, 2, 29).is_none());
    assert!(Date::from_calendar_date(1900, 2, 29).is_none());
    assert!(Date::from_calendar_date(2024, 4, 31).is_none());
    assert!(Date::from_calendar_date(2024, 13, 1).is_none());
    assert!(Date::from_calendar_date(2024, 1, 0).is_none());
    let d = Date::from_calendar_date(-5, 1, 1).unwrap();
    assert_eq!(d.to_string(), "-0005-01-01");
}

#[test]
fn dates_read_and_write_year_month_day() {
    let d = Date::parse("2020-01-02").unwrap();
    assert_eq!((d.year(), d.month(), d.day()), (2020, 1, 2));
    assert_eq!(d.to_string(), "2020-01-02");
    assert!(Date::parse("2020-02-30").is_err());
    assert!(Date::parse("02.01.2020").is_err());
    assert!(!Date::parse("").unwrap_err().to_string().is_empty());
    let today = Date::today();
    assert!((1..=12).contains(&today.month()));
}

#[test]
fn times_read_and_write_hour_minute() {
    let t = Time::parse("09:05").unwrap();
    assert_eq!((t.hour(), t.minute()), (9, 5));
    assert_eq!(t.to_string(), "09:05");
    assert!(Time::parse("24:00").is_err());
    assert!(Time::from_hms_nano(23, 59, 59, 999_999_999).is_some());
    assert!(Time::from_hms_nano(23, 60, 0, 0).is_none());
    let dt = PrimitiveDateTime::parse("2021-12-31T23:59").unwrap();
    assert_eq!(dt.to_string(), "2021-12-31T23:59");
    assert_eq!(dt.date.day(), 31);
    assert!(PrimitiveDateTime::parse("2021-12-31 23:59").is_err());
    assert!(Time::now().hour() < 24);
}

#[test]
fn color_text_reads_back() {
    for (r, g, b) in [(0u8, 0u8, 0u8), (255, 255, 255), (1, 2, 254), (171, 205, 239)] {
        let c = Color { r, g, b, a: 255 };
        assert_eq!(Color::parse(&c.to_string()), Ok(c));
    }
}
