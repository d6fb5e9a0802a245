use ssne_bot::handler::{
    classify, help_text, list_embed_fields, step, Command, Effect, Event, HandlerState, Query, Step,
};
use ssne_bot::structs::McUsername;

fn effects(s: &Step) -> Vec<String> {
    s.effects
        .iter()
        .map(|e| match e {
            Effect::Reply(t) => format!("reply {}", t),
            Effect::ListEmbed { title, fields } => {
                let parts: Vec<String> = fields.iter().map(|f| format!("{}={}", f[0], f[1])).collect();
                format!("embed {} [{}]", title, parts.join(", "))
            }
            Effect::PushConfig { guild_id, key, value } => format!("set {} {} {:?}", guild_id, key, value),
        })
        .collect()
}

fn query(s: &Step) -> String {
    match &s.query {
        None => "none".to_string(),
        Some(Query::Names { guild_id }) => format!("names {}", guild_id),
        Some(Query::Permissions) => "perms".to_string(),
        Some(Query::McUser { name }) => format!("mc {}", name),
        Some(Query::Verify { guild_id, dc_user, mc_user }) => {
            format!("verify {} {} {}", guild_id, dc_user.pingid, mc_user.name)
        }
        Some(Query::Unverify { guild_id, dc_user }) => format!("unverify {} {}", guild_id, dc_user.pingid),
        Some(Query::RealGuild { prefix }) => format!("real {}", prefix),
        Some(Query::Config { guild_id, key }) => format!("config {} {}", guild_id, key),
        Some(Query::Members { prefix }) => format!("members {}", prefix),
    }
}

fn begin(content: &str, guild: i64) -> (HandlerState, Step) {
    step(HandlerState::new(content.to_string(), guild), Event::Begin)
}

const GUILD_ERR: &str = "ERROR: Guild ID wasn't found! Either not a guild, or an error happened somewhere, report to Memarios please.";

#[test]
fn classify_commands() {
    assert!(classify("hello") == Command::Ignore);
    assert!(classify("w!help") == Command::Help);
    assert!(classify("w!verify <@1> x") == Command::Verify);
    assert!(classify("w!verifiedrole 5") == Command::VerifiedRole);
    assert!(classify("w!unverify <@1>") == Command::Unverify);
    assert!(classify("w!removedroles 1 2") == Command::RemovedRoles);
    assert!(classify("w!nothing") == Command::Other);
}

#[test]
fn ignores_other_messages() {
    let (state, out) = begin("hello there", 7);
    assert!(state.is_done());
    assert!(out.effects.is_empty());
    assert!(out.query.is_none());
}

#[test]
fn help_replies_with_version() {
    let (state, out) = begin("w!help", 0);
    assert!(state.is_done());
    assert_eq!(out.effects.len(), 1);
    assert!(help_text().starts_with("Running bot version **v1.5.1**\nCommand permissions"));
    assert!(help_text().contains("\\- - - Everyone - - -"));
    assert_eq!(effects(&out), vec![format!("reply {}", help_text())]);
}

#[test]
fn list_flow() {
    let (state, out) = begin("w!list", 0);
    assert!(state.is_done());
    assert_eq!(effects(&out), vec![format!("reply {}", GUILD_ERR)]);

    let (state, out) = begin("w!list", 9);
    assert_eq!(query(&out), "names 9");
    let (_, out) = step(state, Event::Names(vec![]));
    assert_eq!(effects(&out), vec!["reply This server has no verified members"]);

    let (state, _) = begin("w!list", 9);
    let names = vec![
        ["<@1>".to_string(), "Steve".to_string()],
        ["<@2>".to_string(), "Alex".to_string()],
    ];
    let (state, out) = step(state, Event::Names(names));
    assert_eq!(effects(&out), vec!["embed Verified members [Steve=<@1>, Alex=<@2>]"]);
    // Everyone may list: handling is over with the list, no permission check.
    assert_eq!(query(&out), "none");
    assert!(state.is_done());
}

#[test]
fn embed_fields_name_then_mention() {
    let names = vec![["<@1>".to_string(), "Steve".to_string()]];
    assert_eq!(list_embed_fields(&names), vec![["Steve".to_string(), "<@1>".to_string()]]);
    assert!(list_embed_fields(&Vec::new()).is_empty());
}

#[test]
fn whois_modes() {
    let names = || {
        vec![
            ["<@1>".to_string(), "Steve".to_string()],
            ["<@2>".to_string(), "Alex".to_string()],
            ["<@1>".to_string(), "Herobrine".to_string()],
        ]
    };
    let (state, out) = begin("w!whois DC <@1>", 3);
    assert_eq!(query(&out), "names 3");
    let (state, out) = step(state, Event::Names(names()));
    assert!(state.is_done());
    assert_eq!(
        effects(&out),
        vec![
            "reply User is verified as \"Steve\" in Minecraft",
            "reply User is verified as \"Herobrine\" in Minecraft",
        ]
    );
    // Everyone may ask: handling is over with the answers.
    assert_eq!(query(&out), "none");

    let (state, _) = begin("w!whois MC Alex", 3);
    let (_, out) = step(state, Event::Names(names()));
    assert_eq!(effects(&out), vec!["reply User is verified as \"<@2>\" in Discord"]);

    let (state, _) = begin("w!whois mc Alex", 3);
    let (_, out) = step(state, Event::Names(names()));
    assert_eq!(effects(&out), vec!["reply User is verified as \"<@2>\" in Discord"]);

    let (state, _) = begin("w!whois xx Alex", 3);
    let (state, out) = step(state, Event::Names(names()));
    assert_eq!(effects(&out), vec!["reply \"xx\" is not a valid mode, use DC or MC"]);
    assert!(state.is_done() && out.query.is_none());

    let (state, out) = begin("w!whois dc", 3);
    assert!(state.is_done());
    assert_eq!(
        effects(&out),
        vec!["reply Command requires 2 arguments\nUsage: w!whois [dc | mc] [discord-name]"]
    );
}

#[test]
fn verify_flow() {
    let (state, out) = begin("w!verify <@5> Steve", 4);
    assert_eq!(query(&out), "perms");
    let (state, out) = step(state, Event::Permissions { manage_roles: true, administrator: false });
    assert_eq!(query(&out), "mc Steve");
    let (state, out) = step(state, Event::McUser(Some(McUsername::new_from_name("Steve"))));
    assert_eq!(query(&out), "verify 4 <@5> Steve");
    let (state, out) = step(state, Event::Outcome(Ok("done".to_string())));
    assert!(state.is_done());
    assert_eq!(effects(&out), vec!["reply done"]);
}

#[test]
fn verify_errors() {
    let (state, _) = begin("w!verify Steve", 4);
    let (_, out) = step(state, Event::Permissions { manage_roles: true, administrator: true });
    assert_eq!(
        effects(&out),
        vec!["reply Command requires 2 arguments\nUsage: w!verify [discord-ping] [minecraft-user]"]
    );
    let (state, _) = begin("w!verify Bob Steve", 4);
    let (_, out) = step(state, Event::Permissions { manage_roles: true, administrator: true });
    assert_eq!(
        effects(&out),
        vec!["reply Please ping the user or format as <@id> to ensure it gets the right person."]
    );
    let (state, _) = begin("w!verify <@5> Steve", 4);
    let (state, _) = step(state, Event::Permissions { manage_roles: true, administrator: true });
    let (_, out) = step(state, Event::McUser(None));
    assert_eq!(
        effects(&out),
        vec!["reply Couldn't find the Minecraft user from Mojang's API, did you write it correctly?"]
    );
    let (state, _) = begin("w!verify <@5> Steve", 0);
    let (state, _) = step(state, Event::Permissions { manage_roles: true, administrator: true });
    let (_, out) = step(state, Event::McUser(Some(McUsername::new_from_name("Steve"))));
    assert_eq!(effects(&out), vec![format!("reply {}", GUILD_ERR)]);
    let (state, _) = begin("w!verify <@5> Steve", 4);
    let (_, out) = step(state, Event::Permissions { manage_roles: false, administrator: true });
    assert_eq!(effects(&out), vec!["reply You don't have the permission to do that"]);
}

#[test]
fn unverify_flow() {
    let (state, _) = begin("w!unverify <@5>", 4);
    let (state, out) = step(state, Event::Permissions { manage_roles: true, administrator: false });
    assert_eq!(query(&out), "unverify 4 <@5>");
    let (_, out) = step(state, Event::Outcome(Err("Couldn't find target member".to_string())));
    assert_eq!(effects(&out), vec!["reply Couldn't find target member"]);
    let (state, _) = begin("w!unverify", 4);
    let (_, out) = step(state, Event::Permissions { manage_roles: true, administrator: false });
    assert_eq!(
        effects(&out),
        vec!["reply Command requires 1 argument\nUsage: w!unverify [discord-ping]"]
    );
}

#[test]
fn admin_commands_need_administrator() {
    let (state, _) = begin("w!vetrole 55", 4);
    let (state, out) = step(state, Event::Permissions { manage_roles: true, administrator: false });
    assert!(state.is_done());
    assert_eq!(effects(&out), vec!["reply You don't have the permission to do that"]);
}

#[test]
fn role_settings() {
    let (state, _) = begin("w!vetrole 0055", 4);
    let (_, out) = step(state, Event::Permissions { manage_roles: true, administrator: true });
    assert_eq!(effects(&out), vec!["set 4 veteran-role-id \"55\"", "reply Veteran role has been saved"]);
    let (state, _) = begin("w!verifiedrole 77", 4);
    let (_, out) = step(state, Event::Permissions { manage_roles: true, administrator: true });
    assert_eq!(effects(&out), vec!["set 4 verified-role-id \"77\"", "reply Verified role has been saved"]);
    let (state, _) = begin("w!vetrole abc", 4);
    let (_, out) = step(state, Event::Permissions { manage_roles: true, administrator: true });
    assert_eq!(
        effects(&out),
        vec!["reply The ID you provided couldn't be parsed (probably incorrect)"]
    );
    let (state, _) = begin("w!removedroles 1 2 3", 4);
    let (_, out) = step(state, Event::Permissions { manage_roles: true, administrator: true });
    assert_eq!(effects(&out), vec!["set 4 removed-roles \"1 2 3\"", "reply Roles have been saved"]);
    let (state, _) = begin("w!removedroles", 4);
    let (_, out) = step(state, Event::Permissions { manage_roles: true, administrator: true });
    assert_eq!(effects(&out), vec!["set 4 removed-roles \"\"", "reply Roles have been saved"]);
}

#[test]
fn guildname_flow() {
    let (state, _) = begin("w!guildname ABCD", 4);
    let (state, out) = step(state, Event::Permissions { manage_roles: true, administrator: true });
    assert_eq!(query(&out), "real ABCD");
    let (_, out) = step(state, Event::RealGuild(true));
    assert_eq!(effects(&out), vec!["set 4 wynn-guild-name \"ABCD\"", "reply Guild name has been saved"]);
    let (state, _) = begin("w!guildname ABCD", 4);
    let (state, _) = step(state, Event::Permissions { manage_roles: true, administrator: true });
    let (_, out) = step(state, Event::RealGuild(false));
    assert_eq!(effects(&out), vec!["reply Could not find guild from Wynn's API. Did you write the name correctly? Use the 4 letter identification name instead of the full one."]);
}

#[test]
fn notifchannel_flow() {
    let (state, _) = begin("w!notifchannel 321", 4);
    let (state, out) = step(state, Event::Permissions { manage_roles: true, administrator: true });
    assert_eq!(query(&out), "config 4 wynn-guild-name");
    let (state, out) = step(state, Event::Config(Some("ABCD".to_string())));
    assert_eq!(query(&out), "real ABCD");
    let (state, out) = step(state, Event::RealGuild(true));
    assert_eq!(query(&out), "members ABCD");
    let members = vec![["A".to_string(), "a-1".to_string()], ["B".to_string(), "b-2".to_string()]];
    let (state, out) = step(state, Event::Members(members));
    assert!(state.is_done());
    assert_eq!(
        effects(&out),
        vec![
            "set 4 wynn-guild-members \"a-1\\nb-2\\n\"",
            "set 4 notif-channel-id \"321\"",
            "reply Channel has been saved",
        ]
    );
    let (state, _) = begin("w!notifchannel nope", 4);
    let (_, out) = step(state, Event::Permissions { manage_roles: true, administrator: true });
    assert_eq!(effects(&out), vec!["reply Invalid channel ID"]);
    let (state, _) = begin("w!notifchannel 5", 4);
    let (state, _) = step(state, Event::Permissions { manage_roles: true, administrator: true });
    let (_, out) = step(state, Event::Config(None));
    assert_eq!(effects(&out), vec!["reply Your guild name hasn't been set or is incorrect"]);
    let (state, _) = begin("w!notifchannel 5", 4);
    let (state, _) = step(state, Event::Permissions { manage_roles: true, administrator: true });
    let (state, _) = step(state, Event::Config(Some("X".to_string())));
    let (state, out) = step(state, Event::RealGuild(false));
    assert!(state.is_done());
    assert!(out.effects.is_empty());
}

#[test]
fn unexpected_event_ends_handling() {
    let (state, _) = begin("w!list", 9);
    let (state, out) = step(state, Event::RealGuild(true));
    assert!(state.is_done());
    assert!(out.effects.is_empty() && out.query.is_none());
}
