use ssne_bot::membership::{unverify, verify, MemberAction};
use ssne_bot::structs::{DcUsername, McUsername};

fn describe(actions: &[MemberAction]) -> Vec<String> {
    actions
        .iter()
        .map(|a| match a {
            MemberAction::AddRole(r) => format!("add {}", r),
            MemberAction::RemoveRole(r) => format!("remove {}", r),
            MemberAction::SetNickname(n) => format!("nick {}", n),
            MemberAction::InsertName { dc_user, mc_user, mc_uuid } => {
                format!("insert {} {} {}", dc_user, mc_user, mc_uuid)
            }
            MemberAction::RemoveName { username } => format!("forget {}", username),
        })
        .collect()
}

#[test]
fn verify_member() {
    let dc = DcUsername::new_from_pingid("<@5>");
    let mc = McUsername { name: "Steve".to_string(), uuid: "abc".to_string() };
    let (actions, answer) = verify(true, &dc, &mc, Some("11".to_string()), Some("x".to_string()));
    assert_eq!(describe(&actions), vec!["add 11", "remove 1", "nick Steve", "insert <@5> Steve abc"]);
    assert_eq!(answer, Ok("Discord user \"<@5>\" has been verified as \"Steve\"".to_string()));
    let (actions, answer) = verify(true, &dc, &mc, None, None);
    assert_eq!(describe(&actions), vec!["nick Steve", "insert <@5> Steve abc"]);
    assert!(answer.is_ok());
}

#[test]
fn verify_missing_member() {
    let dc = DcUsername::new_from_pingid("<@5>");
    let mc = McUsername::new_from_name("Steve");
    let (actions, answer) = verify(false, &dc, &mc, Some("11".to_string()), None);
    assert!(actions.is_empty());
    assert_eq!(answer, Err("Couldn't find target member".to_string()));
}

#[test]
fn unverify_member() {
    let dc = DcUsername::new_from_pingid("<@5>");
    let (actions, answer) = unverify(
        true,
        &dc,
        Some("11".to_string()),
        Some("20 21".to_string()),
        Some("30".to_string()),
    );
    assert_eq!(describe(&actions), vec!["remove 11", "remove 20", "remove 21", "add 30", "forget <@5>"]);
    assert_eq!(answer, Ok("User has been unverified".to_string()));
    let (actions, answer) = unverify(false, &dc, None, None, None);
    assert!(actions.is_empty());
    assert_eq!(answer, Err("Couldn't find target member".to_string()));
}
