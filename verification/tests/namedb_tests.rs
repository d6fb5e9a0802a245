use ssne_bot::namedb::{
    db_is_complete, db_is_readable, get_names, get_records, insert_name_to_db,
    remove_name_from_db,
};

fn pair(a: &str, b: &str) -> [String; 2] {
    [a.to_string(), b.to_string()]
}

fn record(a: &str, b: &str, c: &str) -> [String; 3] {
    [a.to_string(), b.to_string(), c.to_string()]
}

#[test]
fn reads_first_two_fields_of_each_line() {
    let text = "<@1> Steve abc\n\n<@2> Alex def extra\n";
    assert_eq!(get_names(text), vec![pair("<@1>", "Steve"), pair("<@2>", "Alex")]);
    assert_eq!(get_names(""), Vec::<[String; 2]>::new());
}

#[test]
fn reads_records_with_uuid() {
    let text = "<@1> Steve abc\n\n<@2> Alex def extra\n";
    assert_eq!(
        get_records(text),
        vec![record("<@1>", "Steve", "abc"), record("<@2>", "Alex", "def")]
    );
    assert_eq!(get_records(""), Vec::<[String; 3]>::new());
}

#[test]
fn readability() {
    assert!(db_is_readable("<@1> Steve abc\n"));
    assert!(db_is_readable("<@1> Steve\n"));
    assert!(db_is_readable(""));
    assert!(!db_is_readable("<@1>Steve\n"));
}

#[test]
fn completeness() {
    assert!(db_is_complete("<@1> Steve abc\n\n"));
    assert!(db_is_complete(""));
    assert!(!db_is_complete("<@1> Steve\n"));
}

#[test]
fn insert_appends_a_line() {
    assert_eq!(insert_name_to_db("", "<@1>", "Steve", "abc"), "<@1> Steve abc\n");
    assert_eq!(
        insert_name_to_db("<@1> Steve abc\n", "<@2>", "Alex", "def"),
        "<@1> Steve abc\n<@2> Alex def\n"
    );
}

#[test]
fn read_after_insert() {
    let before = "<@1> Steve abc\n";
    let after = insert_name_to_db(before, "<@2>", "Alex", "def");
    let mut expected = get_names(before);
    expected.push(pair("<@2>", "Alex"));
    assert_eq!(get_names(&after), expected);
    let mut expected_records = get_records(before);
    expected_records.push(record("<@2>", "Alex", "def"));
    assert_eq!(get_records(&after), expected_records);
    assert!(after.ends_with('\n'));
    assert!(db_is_complete(&after));
}

#[test]
fn remove_takes_out_both_sides() {
    let text = "<@1> Steve abc\n<@2> Alex def\n<@3> Steve ghi\n";
    assert_eq!(remove_name_from_db(text, "Steve"), "<@2> Alex def\n");
    assert_eq!(remove_name_from_db(text, "<@2>"), "<@1> Steve abc\n<@3> Steve ghi\n");
    assert_eq!(remove_name_from_db(text, "nobody"), text);
}

#[test]
fn remove_keeps_other_lines_whole() {
    let text = "<@1> Steve abc\n\n<@2> Alex def extra\n";
    assert_eq!(remove_name_from_db(text, "<@1>"), "<@2> Alex def extra\n");
}

#[test]
fn read_after_remove() {
    let text = "<@1> Steve abc\n\n<@2> Alex def\n";
    let after = remove_name_from_db(text, "<@1>");
    assert_eq!(get_names(&after), vec![pair("<@2>", "Alex")]);
    assert_eq!(get_records(&after), vec![record("<@2>", "Alex", "def")]);
}
