use ssne_bot::guildconfig::{config_role_id, removed_role_ids, verified_reply};
use ssne_bot::text::format_u64;

#[test]
fn role_ids_default_to_one() {
    assert_eq!(config_role_id("123"), 123);
    assert_eq!(config_role_id("abc"), 1);
    assert_eq!(config_role_id(""), 1);
}

#[test]
fn removed_roles_list() {
    assert_eq!(removed_role_ids("10 20 x"), vec![10, 20, 1]);
    assert_eq!(removed_role_ids(""), vec![1]);
}

#[test]
fn stored_role_reads_back() {
    let id = 987654321012345678u64;
    assert_eq!(config_role_id(&format_u64(id)), id);
}

#[test]
fn verified_answer() {
    assert_eq!(
        verified_reply("<@1>", "Steve"),
        "Discord user \"<@1>\" has been verified as \"Steve\""
    );
}
