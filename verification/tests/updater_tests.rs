use ssne_bot::updater::{update_step, UpdateEffect, UpdateEvent, UpdateQuery, UpdateStage, UpdateState, UpdateStep};

fn effects(s: &UpdateStep) -> Vec<String> {
    s.effects
        .iter()
        .map(|e| match e {
            UpdateEffect::Notify { channel_id, message } => format!("notify {} {}", channel_id, message),
            UpdateEffect::PushConfig { guild_id, key, value } => format!("set {} {} {:?}", guild_id, key, value),
            UpdateEffect::Unverify { guild_id, dc_user } => format!("unverify {} {}", guild_id, dc_user.pingid),
        })
        .collect()
}

fn query(s: &UpdateStep) -> String {
    match &s.query {
        None => "none".to_string(),
        Some(UpdateQuery::Config { guild_id, key }) => format!("config {} {}", guild_id, key),
        Some(UpdateQuery::RealGuild { prefix }) => format!("real {}", prefix),
        Some(UpdateQuery::Members { prefix }) => format!("members {}", prefix),
        Some(UpdateQuery::Records { guild_id }) => format!("records {}", guild_id),
        Some(UpdateQuery::McName { uuid }) => format!("name of {}", uuid),
    }
}

fn finished(s: &UpdateState) -> Option<bool> {
    match s.stage {
        UpdateStage::Finished { completed } => Some(completed),
        _ => None,
    }
}

fn pair(a: &str, b: &str) -> [String; 2] {
    [a.to_string(), b.to_string()]
}

fn record(a: &str, b: &str, c: &str) -> [String; 3] {
    [a.to_string(), b.to_string(), c.to_string()]
}

#[test]
fn full_update_of_one_guild() {
    let (s, out) = update_step(UpdateState::new(vec![11]), UpdateEvent::Begin);
    assert_eq!(query(&out), "config 11 wynn-guild-name");
    let (s, out) = update_step(s, UpdateEvent::Config(Some("ABCD".to_string())));
    assert_eq!(query(&out), "real ABCD");
    let (s, out) = update_step(s, UpdateEvent::RealGuild(true));
    assert_eq!(query(&out), "members ABCD");
    let members = vec![pair("Alice", "a-1"), pair("Bob", "b-2"), pair("Carl", "c-3")];
    let (s, out) = update_step(s, UpdateEvent::Members(members));
    assert_eq!(query(&out), "records 11");
    let records = vec![record("<@1>", "Alice", "a1"), record("<@2>", "Zed", "zz")];
    let (s, out) = update_step(s, UpdateEvent::Records(records));
    assert_eq!(query(&out), "config 11 notif-channel-id");
    let (s, out) = update_step(s, UpdateEvent::Config(Some("99".to_string())));
    assert_eq!(query(&out), "config 11 wynn-guild-members");
    let (s, out) = update_step(s, UpdateEvent::Config(Some("a-1\n".to_string())));
    assert!(out.effects.is_empty());
    // New members are named by a lookup of their UUID.
    assert_eq!(query(&out), "name of b-2");
    let (s, out) = update_step(s, UpdateEvent::McName(Some("Bobby".to_string())));
    assert_eq!(effects(&out), vec!["notify 99 **Bobby** has joined the guild!"]);
    assert_eq!(query(&out), "name of c-3");
    // A member whose name the lookup does not find is not announced.
    let (s, out) = update_step(s, UpdateEvent::McName(None));
    assert_eq!(
        effects(&out),
        vec!["set 11 wynn-guild-members \"a-1\\nb-2\\nc-3\\n\"", "unverify 11 <@2>"]
    );
    assert_eq!(query(&out), "none");
    assert_eq!(finished(&s), Some(true));
}

#[test]
fn guild_without_channel_still_unverifies_leavers() {
    let (s, _) = update_step(UpdateState::new(vec![11, 12]), UpdateEvent::Begin);
    let (s, _) = update_step(s, UpdateEvent::Config(Some("ABCD".to_string())));
    let (s, _) = update_step(s, UpdateEvent::RealGuild(true));
    let (s, _) = update_step(s, UpdateEvent::Members(vec![pair("Alice", "a-1")]));
    let records = vec![record("<@1>", "Alice", "a1"), record("<@2>", "Zed", "zz")];
    let (s, _) = update_step(s, UpdateEvent::Records(records));
    let (s, out) = update_step(s, UpdateEvent::Config(None));
    assert_eq!(effects(&out), vec!["unverify 11 <@2>"]);
    assert_eq!(query(&out), "config 12 wynn-guild-name");
    assert_eq!(finished(&s), None);
}

#[test]
fn misconfigured_guilds_are_skipped() {
    // No guild name: the next guild is updated.
    let (s, _) = update_step(UpdateState::new(vec![11, 12]), UpdateEvent::Begin);
    let (s, out) = update_step(s, UpdateEvent::Config(None));
    assert!(out.effects.is_empty());
    assert_eq!(query(&out), "config 12 wynn-guild-name");
    assert_eq!(finished(&s), None);

    // Unknown guild: the next guild is updated.
    let (s, _) = update_step(UpdateState::new(vec![11, 12]), UpdateEvent::Begin);
    let (s, _) = update_step(s, UpdateEvent::Config(Some("X".to_string())));
    let (s, out) = update_step(s, UpdateEvent::RealGuild(false));
    assert_eq!(query(&out), "config 12 wynn-guild-name");
    let (s, _) = update_step(s, UpdateEvent::Config(Some("Y".to_string())));
    let (s, out) = update_step(s, UpdateEvent::RealGuild(true));
    assert_eq!(query(&out), "members Y");

    assert_eq!(finished(&s), None);

    // The last guild skipped completes the update.
    let (s, _) = update_step(UpdateState::new(vec![11]), UpdateEvent::Begin);
    let (s, _) = update_step(s, UpdateEvent::Config(None));
    assert_eq!(finished(&s), Some(true));
}

#[test]
fn moves_to_next_guild_and_empty_list_completes() {
    let (s, out) = update_step(UpdateState::new(vec![]), UpdateEvent::Begin);
    assert_eq!(finished(&s), Some(true));
    assert_eq!(query(&out), "none");

    let (s, _) = update_step(UpdateState::new(vec![1, 2]), UpdateEvent::Begin);
    let (s, _) = update_step(s, UpdateEvent::Config(Some("X".to_string())));
    let (s, _) = update_step(s, UpdateEvent::RealGuild(true));
    let (s, _) = update_step(s, UpdateEvent::Members(vec![]));
    let (s, _) = update_step(s, UpdateEvent::Records(vec![]));
    let (s, _) = update_step(s, UpdateEvent::Config(Some("1".to_string())));
    let (s, out) = update_step(s, UpdateEvent::Config(None));
    assert_eq!(query(&out), "config 2 wynn-guild-name");
    assert_eq!(effects(&out), vec!["set 1 wynn-guild-members \"\""]);
    assert_eq!(finished(&s), None);
}

#[test]
fn unexpected_event_stops_the_update() {
    let (s, _) = update_step(UpdateState::new(vec![1]), UpdateEvent::Begin);
    let (s, out) = update_step(s, UpdateEvent::RealGuild(true));
    assert_eq!(finished(&s), Some(false));
    assert!(out.effects.is_empty() && out.query.is_none());
}
