use ssne_bot::sync::{
    format_member_list, guild_id_from_db_path, guild_ids_from_db_paths, join_message,
    member_uuids, members_to_unverify, new_guild_members,
};

fn pair(a: &str, b: &str) -> [String; 2] {
    [a.to_string(), b.to_string()]
}

fn record(a: &str, b: &str, c: &str) -> [String; 3] {
    [a.to_string(), b.to_string(), c.to_string()]
}

#[test]
fn guild_ids_from_folders() {
    assert_eq!(guild_id_from_db_path("DBs/123", "DBs"), 123);
    assert_eq!(guild_id_from_db_path("DBs\\456", "DBs"), 456);
    assert_eq!(guild_id_from_db_path("DBs/abc", "DBs"), 0);
    assert_eq!(guild_id_from_db_path("789", "DBs"), 789);
    let paths = vec!["DBs/1".to_string(), "DBs/x".to_string(), "DBs/0".to_string(), "DBs/2".to_string()];
    assert_eq!(guild_ids_from_db_paths(&paths, "DBs"), vec![1, 2]);
}

#[test]
fn member_list_and_new_members() {
    let members = vec![pair("Alice", "a-1"), pair("Bob", "b-2")];
    let uuids = member_uuids(&members);
    assert_eq!(uuids, vec!["a-1".to_string(), "b-2".to_string()]);
    let stored = format_member_list(&uuids);
    assert_eq!(stored, "a-1\nb-2\n");
    assert!(new_guild_members(&stored, &members).is_empty());
    assert_eq!(new_guild_members("a-1\n", &members), vec![pair("Bob", "b-2")]);
    assert_eq!(new_guild_members("", &members), members);
}

#[test]
fn join_notification_text() {
    assert_eq!(join_message("Alice"), "**Alice** has joined the guild!");
}

#[test]
fn unverify_those_not_in_the_guild() {
    let db = vec![
        record("<@1>", "Steve", "a1"),
        record("<@2>", "Alex", "zz"),
        record("<@3>", "b2", "b2"),
    ];
    let wynn = vec!["a-1".to_string(), "b-2".to_string()];
    assert_eq!(members_to_unverify(&db, &wynn), vec!["<@2>".to_string()]);
    assert_eq!(members_to_unverify(&db, &Vec::new()).len(), 3);
}

#[test]
fn leavers_are_found_by_recorded_uuid_not_name() {
    let db = vec![record("<@1>", "Steve", "abc")];
    assert!(members_to_unverify(&db, &vec!["abc".to_string()]).is_empty());
    assert_eq!(members_to_unverify(&db, &vec!["Steve".to_string()]), vec!["<@1>".to_string()]);
}
