use formidable::{Name, NamePart};

fn parts(name: &Name) -> Vec<NamePart> {
    let mut out = Vec::new();
    for i in 0..name.len() {
        out.push(name.part(i));
    }
    out
}

#[test]
fn empty_name_has_no_parts() {
    let name = Name::new();
    assert_eq!(name.len(), 0);
    assert_eq!(name.to_string(), "");
    assert_eq!(Name::default(), name);
}

#[test]
fn push_appends_parts_in_order() {
    let name = Name::new().push_key("order").push_index(2).push_key("name");
    assert_eq!(name.len(), 3);
    assert_eq!(
        parts(&name),
        vec![NamePart::Key("order"), NamePart::Index(2), NamePart::Key("name")]
    );
    assert_eq!(name.to_string(), "order[2][name]");
}

#[test]
fn push_fills_all_sixteen_slots() {
    let mut name = Name::new();
    for i in 0..16 {
        name = name.push_index(i);
    }
    assert_eq!(name.len(), 16);
    assert_eq!(name.part(15), NamePart::Index(15));
}

#[test]
fn leading_index_is_bracketed() {
    let name = Name::new().push_index(7).push_key("x");
    assert_eq!(name.to_string(), "[7][x]");
}

#[test]
fn index_text_is_decimal() {
    let name = Name::new().push_key("a").push_index(1234567);
    assert_eq!(name.to_string(), "a[1234567]");
}

#[test]
fn parse_splits_at_brackets() {
    let name = Name::parse("order[2][name]").unwrap();
    assert_eq!(
        parts(&name),
        vec![NamePart::Key("order"), NamePart::Index(2), NamePart::Key("name")]
    );
}

#[test]
fn parse_skips_empty_segments() {
    let name = Name::parse("[[a]][]b]").unwrap();
    assert_eq!(parts(&name), vec![NamePart::Key("a"), NamePart::Key("b")]);
    assert_eq!(Name::parse("").unwrap().len(), 0);
    assert_eq!(Name::parse("[][]").unwrap().len(), 0);
}

#[test]
fn parse_reads_numbers_as_indices() {
    let name = Name::parse("a[+5][007][12]").unwrap();
    assert_eq!(
        parts(&name),
        vec![
            NamePart::Key("a"),
            NamePart::Index(5),
            NamePart::Index(7),
            NamePart::Index(12)
        ]
    );
}

#[test]
fn parse_keeps_non_numbers_as_keys() {
    let name = Name::parse("x[-1][1a][+][99999999999999999999999]").unwrap();
    assert_eq!(
        parts(&name),
        vec![
            NamePart::Key("x"),
            NamePart::Key("-1"),
            NamePart::Key("1a"),
            NamePart::Key("+"),
            NamePart::Key("99999999999999999999999")
        ]
    );
}

#[test]
fn parse_refuses_more_than_sixteen_parts() {
    let sixteen = "a[1][2][3][4][5][6][7][8][9][10][11][12][13][14][15]";
    assert_eq!(Name::parse(sixteen).unwrap().len(), 16);
    let seventeen = "a[1][2][3][4][5][6][7][8][9][10][11][12][13][14][15][16]";
    assert!(Name::parse(seventeen).is_none());
}

#[test]
fn parse_and_to_string_agree() {
    let text = "user_form[contact_info][order][3][name]";
    assert_eq!(Name::parse(text).unwrap().to_string(), text);
}
