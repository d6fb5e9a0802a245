use ssne_bot::wynnapi::{
    get_guild_members, get_mc_name, get_mc_uuid, is_guild_readable, is_profile_readable, is_real_guild,
    JsonValue,
};

fn text(s: &str) -> JsonValue {
    JsonValue::Text(s.to_string())
}

fn obj(fields: Vec<(&str, JsonValue)>) -> JsonValue {
    JsonValue::Object(fields.into_iter().map(|(k, v)| (k.to_string(), v)).collect())
}

fn member(uuid: &str) -> JsonValue {
    obj(vec![("uuid", text(uuid)), ("online", JsonValue::Bool(false))])
}

#[test]
fn profile_uuid() {
    let resp = vec![("name".to_string(), text("Notch")), ("id".to_string(), text("069a79f4"))];
    assert!(is_profile_readable(&resp));
    assert_eq!(get_mc_uuid(&resp), Some("069a79f4".to_string()));
    let missing = vec![("errorMessage".to_string(), text("not found"))];
    assert!(is_profile_readable(&missing));
    assert_eq!(get_mc_uuid(&missing), None);
    let bad = vec![("id".to_string(), JsonValue::Number("5".to_string()))];
    assert!(!is_profile_readable(&bad));
}

#[test]
fn profile_name() {
    let resp = vec![("id".to_string(), text("069a79f4")), ("name".to_string(), text("Notch"))];
    assert_eq!(get_mc_name(&resp), Some("Notch".to_string()));
    let missing = vec![("errorMessage".to_string(), text("not found"))];
    assert_eq!(get_mc_name(&missing), None);
    let bad = vec![("name".to_string(), JsonValue::Bool(true))];
    assert_eq!(get_mc_name(&bad), None);
}

#[test]
fn real_guild_is_status_200() {
    assert!(is_real_guild(200));
    assert!(!is_real_guild(404));
}

#[test]
fn guild_members_skip_the_total() {
    let members = obj(vec![
        ("chief", obj(vec![("Alice", member("aa-1"))])),
        ("owner", obj(vec![("Bob", member("bb-2")), ("Carl", member("cc-3"))])),
        ("total", JsonValue::Number("3".to_string())),
    ]);
    let resp = vec![("name".to_string(), text("Guild")), ("members".to_string(), members)];
    assert!(is_guild_readable(&resp));
    let got = get_guild_members(&resp);
    assert_eq!(
        got,
        vec![
            ["Alice".to_string(), "aa-1".to_string()],
            ["Bob".to_string(), "bb-2".to_string()],
            ["Carl".to_string(), "cc-3".to_string()],
        ]
    );
}

#[test]
fn unreadable_guild_answers() {
    let no_members = vec![("name".to_string(), text("Guild"))];
    assert!(!is_guild_readable(&no_members));
    let bad_rank = vec![("members".to_string(), obj(vec![("chief", text("x"))]))];
    assert!(!is_guild_readable(&bad_rank));
    let no_uuid = vec![("members".to_string(), obj(vec![("chief", obj(vec![("A", obj(vec![]))]))]))];
    assert!(!is_guild_readable(&no_uuid));
}
