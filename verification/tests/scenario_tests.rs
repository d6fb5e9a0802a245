use ssne_bot::handler::{step, Effect, Event, HandlerState};
use ssne_bot::membership::{unverify, verify, MemberAction};
use ssne_bot::namedb::{get_names, get_records, insert_name_to_db, remove_name_from_db};
use ssne_bot::sync::members_to_unverify;
use ssne_bot::structs::{DcUsername, McUsername};

fn apply_db(text: &str, actions: &[MemberAction]) -> String {
    let mut t = text.to_string();
    for a in actions {
        match a {
            MemberAction::InsertName { dc_user, mc_user, mc_uuid } => {
                t = insert_name_to_db(&t, dc_user, mc_user, mc_uuid)
            }
            MemberAction::RemoveName { username } => t = remove_name_from_db(&t, username),
            _ => {}
        }
    }
    t
}

fn whois(content: &str, db: &str) -> Vec<String> {
    let (state, _) = step(HandlerState::new(content.to_string(), 1), Event::Begin);
    let (_, out) = step(state, Event::Names(get_names(db)));
    out.effects
        .iter()
        .map(|e| match e {
            Effect::Reply(t) => t.clone(),
            _ => String::new(),
        })
        .collect()
}

#[test]
fn verified_user_is_found_by_whois_then_forgotten_after_unverify() {
    let dc = DcUsername::try_from_pingid("<@42>").unwrap();
    let mc = McUsername { name: "Steve".to_string(), uuid: "abc123".to_string() };
    let (actions, answer) = verify(true, &dc, &mc, None, None);
    assert!(answer.is_ok());
    let db = apply_db("", &actions);
    assert_eq!(db, "<@42> Steve abc123\n");
    assert_eq!(whois("w!whois dc <@42>", &db), vec!["User is verified as \"Steve\" in Minecraft"]);
    assert_eq!(whois("w!whois MC Steve", &db), vec!["User is verified as \"<@42>\" in Discord"]);

    let (actions, answer) = unverify(true, &dc, None, None, None);
    assert!(answer.is_ok());
    let db = apply_db(&db, &actions);
    assert!(get_names(&db).is_empty());
    assert!(whois("w!whois dc <@42>", &db).is_empty());
}

#[test]
fn verified_user_still_in_guild_is_kept_and_leaver_is_unverified() {
    let dc = DcUsername::try_from_pingid("<@42>").unwrap();
    let mc = McUsername { name: "Steve".to_string(), uuid: "abc123".to_string() };
    let (actions, _) = verify(true, &dc, &mc, None, None);
    let db = apply_db("", &actions);
    let records = get_records(&db);
    // The Wynncraft answer gives the UUID with dashes.
    assert!(members_to_unverify(&records, &vec!["abc-123".to_string()]).is_empty());
    assert_eq!(members_to_unverify(&records, &vec!["zzz".to_string()]), vec!["<@42>".to_string()]);
}
