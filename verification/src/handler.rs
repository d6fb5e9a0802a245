//! The decisions of the chat command handler.
//!
//! Handling one message alternates between deciding and outside work
//! (replying, reading the database, asking Discord for permissions, asking
//! the web APIs). `step` takes the handler's state and what the last piece
//! of outside work gave back, and returns the new state, the effects to
//! perform now, and the next piece of outside work to do, if any.
use vstd::prelude::*;

use crate::guildconfig::{
    role_id_or_default, GUILD_MEMBERS_KEY, GUILD_NAME_KEY, NOTIF_CHANNEL_KEY, REMOVED_ROLES_KEY, VERIFIED_ROLE_KEY,
    VETERAN_ROLE_KEY,
};
use crate::structs::{is_ping_form, DcUsername, McUsername};
use crate::sync::{format_member_list, member_list_text, member_uuids, uuids_of};
use crate::text::{
    decimal_spec, format_i64, format_u64, lowercase_of, parse_i64, parse_i64_spec, parse_u64,
    parse_u64_spec, lemma_parse_format_u64, same_text, signed_decimal_spec, split_on, split_spec, starts_with,
    strip_prefix, to_lowercase,
};

verus! {

broadcast use vstd::string::group_string_axioms;

/// The version the help text names.
pub const BOT_VERSION: &'static str = "v1.5.1";

// ---------------------------------------------------------------------
// Commands
// ---------------------------------------------------------------------

/// What a message asks for, by the prefix it starts with.
#[derive(PartialEq, Eq, Structural, Clone, Copy)]
pub enum Command {
    /// Not a command: it does not start with `w!`.
    Ignore,
    Help,
    List,
    Whois,
    Verify,
    Unverify,
    VerifiedRole,
    GuildName,
    NotifChannel,
    VetRole,
    RemovedRoles,
    /// Starts with `w!` but names no known command.
    Other,
}

/// The command a message asks for, its prefixes tried in the order the
/// handler tries them.
pub open spec fn command_of(content: Seq<char>) -> Command {
    if !"w!"@.is_prefix_of(content) {
        Command::Ignore
    } else if "w!help"@.is_prefix_of(content) {
        Command::Help
    } else if "w!list"@.is_prefix_of(content) {
        Command::List
    } else if "w!whois"@.is_prefix_of(content) {
        Command::Whois
    } else if "w!verify"@.is_prefix_of(content) {
        Command::Verify
    } else if "w!unverify"@.is_prefix_of(content) {
        Command::Unverify
    } else if "w!verifiedrole"@.is_prefix_of(content) {
        Command::VerifiedRole
    } else if "w!guildname"@.is_prefix_of(content) {
        Command::GuildName
    } else if "w!notifchannel"@.is_prefix_of(content) {
        Command::NotifChannel
    } else if "w!vetrole"@.is_prefix_of(content) {
        Command::VetRole
    } else if "w!removedroles"@.is_prefix_of(content) {
        Command::RemovedRoles
    } else {
        Command::Other
    }
}

/// The command a message asks for (`command_of`).
pub fn classify(content: &str) -> (r: Command)
    ensures
        r == command_of(content@),
{
    if !starts_with(content, "w!") {
        Command::Ignore
    } else if starts_with(content, "w!help") {
        Command::Help
    } else if starts_with(content, "w!list") {
        Command::List
    } else if starts_with(content, "w!whois") {
        Command::Whois
    } else if starts_with(content, "w!verify") {
        Command::Verify
    } else if starts_with(content, "w!unverify") {
        Command::Unverify
    } else if starts_with(content, "w!verifiedrole") {
        Command::VerifiedRole
    } else if starts_with(content, "w!guildname") {
        Command::GuildName
    } else if starts_with(content, "w!notifchannel") {
        Command::NotifChannel
    } else if starts_with(content, "w!vetrole") {
        Command::VetRole
    } else if starts_with(content, "w!removedroles") {
        Command::RemovedRoles
    } else {
        Command::Other
    }
}

/// The space-separated words of a message, the command first.
pub open spec fn args_of(content: Seq<char>) -> Seq<Seq<char>> {
    split_spec(content, ' ')
}

// ---------------------------------------------------------------------
// Replies
// ---------------------------------------------------------------------

/// The help text after the version.
pub const HELP_REST: &'static str = "**
Command permissions, arguments and descriptions:

\\- - - Everyone - - -

__w!help__
*Take a guess*

__w!whois ['dc' | 'mc'] [name]__
*Gives you the mc name of someone based on their dc name, or the other way around*

__w!list__
*List all verified members*

\\- - - Manage roles permissions - - -

__w!verify [discord-ping] [minecraft-user]__
*Verifies a person and links their MC and DC names together, also gives them the verified role. Make sure to ping the member so it surely gets the right person*

__w!unverify [discord-ping]__
*Unverifies a person, also removes their role, ping the person so it gets the right one*

\\- - - Administrator - - -

__w!verifiedrole [role-id]__
*Use this command to specify the role used for verified members*

__w!guildname [guild-name]__
*Use this command to specify what wynncraft guild should the bot compare to when doing automatic member management* 

__w!notifchannel [channel-id]__
*Use this command to specify where should join notifications go to*

__w!vetrole [role-id]__
*Use this command to specify the role given to people who've been unverified*

__w!removedroles [role-id1] <role-id2> <role-id3>...__
*Use this command to specify what roles should be removed when a person is unverified (e.g. ranks), you can list multiple, add a space between the IDs.*

See the github repo for more accurate information, source code, or if you have any issues with the bot: 
<https://github.com/NotaKennen/SSNE-Server-verification-bot>";

pub open spec fn help_spec() -> Seq<char> {
    "Running bot version **"@ + BOT_VERSION@ + HELP_REST@
}

pub open spec fn guild_error_spec() -> Seq<char> {
    "ERROR: Guild ID wasn't found! Either not a guild, or an error happened somewhere, report to Memarios please."@
}

pub open spec fn no_permission_spec() -> Seq<char> {
    "You don't have the permission to do that"@
}

pub open spec fn whois_found_mc_spec(mc: Seq<char>) -> Seq<char> {
    "User is verified as \""@ + mc + "\" in Minecraft"@
}

pub open spec fn whois_found_dc_spec(dc: Seq<char>) -> Seq<char> {
    "User is verified as \""@ + dc + "\" in Discord"@
}

pub open spec fn bad_mode_spec(mode: Seq<char>) -> Seq<char> {
    "\""@ + mode + "\" is not a valid mode, use DC or MC"@
}

pub open spec fn no_verified_spec() -> Seq<char> {
    "This server has no verified members"@
}

pub open spec fn whois_usage_spec() -> Seq<char> {
    "Command requires 2 arguments\nUsage: w!whois [dc | mc] [discord-name]"@
}

pub open spec fn verify_usage_spec() -> Seq<char> {
    "Command requires 2 arguments\nUsage: w!verify [discord-ping] [minecraft-user]"@
}

pub open spec fn ping_hint_spec() -> Seq<char> {
    "Please ping the user or format as <@id> to ensure it gets the right person."@
}

pub open spec fn mc_not_found_spec() -> Seq<char> {
    "Couldn't find the Minecraft user from Mojang's API, did you write it correctly?"@
}

pub open spec fn unverify_usage_spec() -> Seq<char> {
    "Command requires 1 argument\nUsage: w!unverify [discord-ping]"@
}

pub open spec fn guildname_usage_spec() -> Seq<char> {
    "Command requires 1 argument\nUsage: w!guildname [guild-name]"@
}

pub open spec fn guild_not_found_spec() -> Seq<char> {
    "Could not find guild from Wynn's API. Did you write the name correctly? Use the 4 letter identification name instead of the full one."@
}

pub open spec fn guild_saved_spec() -> Seq<char> {
    "Guild name has been saved"@
}

pub open spec fn notif_usage_spec() -> Seq<char> {
    "Command requires 1 argument\nUsage: w!notifchannel [channel-id]"@
}

pub open spec fn invalid_channel_spec() -> Seq<char> {
    "Invalid channel ID"@
}

pub open spec fn guild_name_unset_spec() -> Seq<char> {
    "Your guild name hasn't been set or is incorrect"@
}

pub open spec fn channel_saved_spec() -> Seq<char> {
    "Channel has been saved"@
}

pub open spec fn verifiedrole_usage_spec() -> Seq<char> {
    "Command requires 1 argument\nUsage: w!verifiedrole [role-id]"@
}

pub open spec fn verifiedrole_saved_spec() -> Seq<char> {
    "Verified role has been saved"@
}

pub open spec fn vetrole_usage_spec() -> Seq<char> {
    "Command requires 1 argument\nUsage: w!vetrole [role-id]"@
}

pub open spec fn bad_role_id_spec() -> Seq<char> {
    "The ID you provided couldn't be parsed (probably incorrect)"@
}

pub open spec fn vetrole_saved_spec() -> Seq<char> {
    "Veteran role has been saved"@
}

pub open spec fn roles_saved_spec() -> Seq<char> {
    "Roles have been saved"@
}

/// The `w!whois` answers: one per entry whose Discord side (or, with
/// `dc_side` false, whose Minecraft side) is `target`, naming the other
/// side, in order.
pub open spec fn whois_replies(names: Seq<Seq<Seq<char>>>, target: Seq<char>, dc_side: bool) -> Seq<
    EffectView,
>
    decreases names.len(),
{
    if names.len() == 0 {
        Seq::empty()
    } else {
        let rest = whois_replies(names.drop_last(), target, dc_side);
        let e = names.last();
        if dc_side && e[0] == target {
            rest.push(EffectView::Reply(whois_found_mc_spec(e[1])))
        } else if !dc_side && e[1] == target {
            rest.push(EffectView::Reply(whois_found_dc_spec(e[0])))
        } else {
            rest
        }
    }
}

/// The argument of `w!removedroles`: what follows `w!removedroles ` in the
/// message, empty where the message is not that long.
pub open spec fn removed_roles_arg(content: Seq<char>) -> Seq<char> {
    if "w!removedroles "@.is_prefix_of(content) {
        content.skip(15)
    } else {
        Seq::empty()
    }
}

/// Handling is over, after these effects.
pub open spec fn finish(effects: Seq<EffectView>) -> (StageView, StepView) {
    (StageView::Done, StepView { effects, query: None })
}

/// Handling goes on at `stage`, after these effects and the query.
pub open spec fn ask(stage: StageView, effects: Seq<EffectView>, q: QueryView) -> (
    StageView,
    StepView,
) {
    (stage, StepView { effects, query: Some(q) })
}

pub open spec fn reply_and_finish(text: Seq<char>) -> (StageView, StepView) {
    finish(seq![EffectView::Reply(text)])
}

/// A message arrives.
pub open spec fn on_begin(content: Seq<char>, guild_id: i64) -> (StageView, StepView) {
    let args = args_of(content);
    match command_of(content) {
        Command::Ignore => finish(Seq::empty()),
        Command::Help => reply_and_finish(help_spec()),
        Command::List => if guild_id == 0 {
            reply_and_finish(guild_error_spec())
        } else {
            ask(StageView::ListNames, Seq::empty(), QueryView::Names(guild_id))
        },
        Command::Whois => if args.len() < 3 {
            reply_and_finish(whois_usage_spec())
        } else if guild_id == 0 {
            reply_and_finish(guild_error_spec())
        } else {
            ask(StageView::WhoisNames, Seq::empty(), QueryView::Names(guild_id))
        },
        _ => ask(StageView::Permissions, Seq::empty(), QueryView::Permissions),
    }
}

pub open spec fn list_title_spec() -> Seq<char> {
    "Verified members"@
}

/// The fields of the list of verified members: one per entry, in order,
/// named by the Minecraft name and holding the Discord mention.
pub open spec fn embed_fields_spec(names: Seq<Seq<Seq<char>>>) -> Seq<Seq<Seq<char>>> {
    names.map_values(|e: Seq<Seq<char>>| seq![e[1], e[0]])
}

/// `w!list` has the names: it lists them, or says there are none, and is
/// done either way.
pub open spec fn on_list_names(names: Seq<Seq<Seq<char>>>) -> (StageView, StepView) {
    if names.len() == 0 {
        reply_and_finish(no_verified_spec())
    } else {
        finish(seq![EffectView::ListEmbed(list_title_spec(), embed_fields_spec(names))])
    }
}

/// `w!whois` has the names: it answers by the mode the first argument
/// names, case-insensitively, and is done.
pub open spec fn on_whois_names(content: Seq<char>, names: Seq<Seq<Seq<char>>>) -> (
    StageView,
    StepView,
) {
    let args = args_of(content);
    if args.len() < 3 {
        finish(Seq::empty())
    } else {
        let mode = lowercase_of(args[1]);
        let replies = if mode == "dc"@ {
            whois_replies(names, args[2], true)
        } else if mode == "mc"@ {
            whois_replies(names, args[2], false)
        } else {
            seq![EffectView::Reply(bad_mode_spec(args[1]))]
        };
        finish(replies)
    }
}

/// The author's permissions are known: the commands that need them go on.
pub open spec fn on_permissions(
    content: Seq<char>,
    guild_id: i64,
    manage_roles: bool,
    administrator: bool,
) -> (StageView, StepView) {
    let args = args_of(content);
    let cmd = command_of(content);
    if !manage_roles {
        reply_and_finish(no_permission_spec())
    } else if cmd == Command::Verify {
        if args.len() < 3 {
            reply_and_finish(verify_usage_spec())
        } else if !is_ping_form(args[1]) {
            reply_and_finish(ping_hint_spec())
        } else {
            ask(StageView::McLookup(args[1]), Seq::empty(), QueryView::McUser(args[2]))
        }
    } else if cmd == Command::Unverify {
        if args.len() < 2 {
            reply_and_finish(unverify_usage_spec())
        } else if !is_ping_form(args[1]) {
            reply_and_finish(ping_hint_spec())
        } else if guild_id == 0 {
            reply_and_finish(guild_error_spec())
        } else {
            ask(StageView::Outcome, Seq::empty(), QueryView::Unverify(guild_id, args[1]))
        }
    } else if !administrator {
        reply_and_finish(no_permission_spec())
    } else if cmd == Command::VerifiedRole {
        if args.len() < 2 {
            reply_and_finish(verifiedrole_usage_spec())
        } else {
            let role = match parse_u64_spec(args[1]) {
                Some(n) => n,
                None => 0,
            };
            if role == 0 {
                reply_and_finish(bad_role_id_spec())
            } else if guild_id == 0 {
                reply_and_finish(guild_error_spec())
            } else {
                finish(
                    seq![
                        EffectView::PushConfig(guild_id, VERIFIED_ROLE_KEY@, decimal_spec(role as nat)),
                        EffectView::Reply(verifiedrole_saved_spec()),
                    ],
                )
            }
        }
    } else if cmd == Command::GuildName {
        if args.len() < 2 {
            reply_and_finish(guildname_usage_spec())
        } else {
            ask(StageView::GuildCheck, Seq::empty(), QueryView::RealGuild(args[1]))
        }
    } else if cmd == Command::NotifChannel {
        if args.len() < 2 {
            reply_and_finish(notif_usage_spec())
        } else {
            let channel = match parse_i64_spec(args[1]) {
                Some(n) => n,
                None => 0,
            };
            if channel == 0 {
                reply_and_finish(invalid_channel_spec())
            } else if guild_id == 0 {
                reply_and_finish(guild_error_spec())
            } else {
                ask(
                    StageView::NotifGuildName(channel),
                    Seq::empty(),
                    QueryView::Config(guild_id, GUILD_NAME_KEY@),
                )
            }
        }
    } else if cmd == Command::VetRole {
        if args.len() < 2 {
            reply_and_finish(vetrole_usage_spec())
        } else {
            let role = match parse_u64_spec(args[1]) {
                Some(n) => n,
                None => 0,
            };
            if role == 0 {
                reply_and_finish(bad_role_id_spec())
            } else if guild_id == 0 {
                reply_and_finish(guild_error_spec())
            } else {
                finish(
                    seq![
                        EffectView::PushConfig(guild_id, VETERAN_ROLE_KEY@, decimal_spec(role as nat)),
                        EffectView::Reply(vetrole_saved_spec()),
                    ],
                )
            }
        }
    } else if cmd == Command::RemovedRoles {
        if guild_id == 0 {
            reply_and_finish(guild_error_spec())
        } else {
            finish(
                seq![
                    EffectView::PushConfig(guild_id, REMOVED_ROLES_KEY@, removed_roles_arg(content)),
                    EffectView::Reply(roles_saved_spec()),
                ],
            )
        }
    } else {
        finish(Seq::empty())
    }
}

/// `w!verify` has looked up the Minecraft user.
pub open spec fn on_mc_user(guild_id: i64, pingid: Seq<char>, mc: Option<(Seq<char>, Seq<char>)>) -> (
    StageView,
    StepView,
) {
    match mc {
        None => reply_and_finish(mc_not_found_spec()),
        Some(u) => if guild_id == 0 {
            reply_and_finish(guild_error_spec())
        } else {
            ask(StageView::Outcome, Seq::empty(), QueryView::Verify(guild_id, pingid, u))
        },
    }
}

/// A verification or an unverification is over: its answer is the reply.
pub open spec fn on_outcome(r: Result<Seq<char>, Seq<char>>) -> (StageView, StepView) {
    match r {
        Ok(text) => reply_and_finish(text),
        Err(text) => reply_and_finish(text),
    }
}

/// `w!guildname` knows whether the guild exists.
pub open spec fn on_guild_check(content: Seq<char>, guild_id: i64, found: bool) -> (
    StageView,
    StepView,
) {
    let args = args_of(content);
    if args.len() < 2 {
        finish(Seq::empty())
    } else if !found {
        reply_and_finish(guild_not_found_spec())
    } else if guild_id == 0 {
        reply_and_finish(guild_error_spec())
    } else {
        finish(
            seq![
                EffectView::PushConfig(guild_id, GUILD_NAME_KEY@, args[1]),
                EffectView::Reply(guild_saved_spec()),
            ],
        )
    }
}

/// `w!notifchannel` has the guild name setting.
pub open spec fn on_notif_guild_name(channel: i64, setting: Option<Seq<char>>) -> (
    StageView,
    StepView,
) {
    match setting {
        None => reply_and_finish(guild_name_unset_spec()),
        Some(name) => ask(
            StageView::NotifGuildCheck(channel, name),
            Seq::empty(),
            QueryView::RealGuild(name),
        ),
    }
}

/// `w!notifchannel` knows whether the named guild exists; it stops
/// without a word where it does not.
pub open spec fn on_notif_guild_check(channel: i64, name: Seq<char>, found: bool) -> (
    StageView,
    StepView,
) {
    if !found {
        finish(Seq::empty())
    } else {
        ask(StageView::NotifMembers(channel), Seq::empty(), QueryView::Members(name))
    }
}

/// `w!notifchannel` has the guild's members: it stores them as the list
/// the next check compares with, then the channel.
pub open spec fn on_notif_members(guild_id: i64, channel: i64, members: Seq<Seq<Seq<char>>>) -> (
    StageView,
    StepView,
) {
    finish(
        seq![
            EffectView::PushConfig(guild_id, GUILD_MEMBERS_KEY@, member_list_text(uuids_of(members))),
            EffectView::PushConfig(guild_id, NOTIF_CHANNEL_KEY@, signed_decimal_spec(channel as int)),
            EffectView::Reply(channel_saved_spec()),
        ],
    )
}

/// One step of handling: the stage and effects that follow the state and
/// the event. An event that the stage does not wait for ends handling.
pub open spec fn step_spec(s: StateView, e: EventView) -> (StateView, StepView) {
    let r = match (s.stage, e) {
        (StageView::Start, EventView::Begin) => on_begin(s.content, s.guild_id),
        (StageView::ListNames, EventView::Names(ns)) => on_list_names(ns),
        (StageView::WhoisNames, EventView::Names(ns)) => on_whois_names(s.content, ns),
        (StageView::Permissions, EventView::Permissions(m, a)) => on_permissions(
            s.content,
            s.guild_id,
            m,
            a,
        ),
        (StageView::McLookup(ping), EventView::McUser(mc)) => on_mc_user(s.guild_id, ping, mc),
        (StageView::Outcome, EventView::Outcome(r)) => on_outcome(r),
        (StageView::GuildCheck, EventView::RealGuild(b)) => on_guild_check(
            s.content,
            s.guild_id,
            b,
        ),
        (StageView::NotifGuildName(ch), EventView::Config(c)) => on_notif_guild_name(ch, c),
        (StageView::NotifGuildCheck(ch, name), EventView::RealGuild(b)) => on_notif_guild_check(
            ch,
            name,
            b,
        ),
        (StageView::NotifMembers(ch), EventView::Members(ms)) => on_notif_members(
            s.guild_id,
            ch,
            ms,
        ),
        _ => finish(Seq::empty()),
    };
    (StateView { content: s.content, guild_id: s.guild_id, stage: r.0 }, r.1)
}

// ---------------------------------------------------------------------
// State, outside work, effects
// ---------------------------------------------------------------------

/// Where the handling of a message stands: what it waits for.
pub enum Stage {
    /// Nothing done yet; waits for `Event::Begin`.
    Start,
    /// `w!list` waits for the guild's names.
    ListNames,
    /// `w!whois` waits for the guild's names.
    WhoisNames,
    /// Waits for the author's permissions.
    Permissions,
    /// `w!verify` waits for the Minecraft user lookup of this Discord user.
    McLookup(DcUsername),
    /// Waits for the outcome of a verification or an unverification.
    Outcome,
    /// `w!guildname` waits for whether the guild exists.
    GuildCheck,
    /// `w!notifchannel` with this channel waits for the guild name setting.
    NotifGuildName(i64),
    /// `w!notifchannel` with this channel waits for whether this guild
    /// exists.
    NotifGuildCheck(i64, String),
    /// `w!notifchannel` with this channel waits for the guild's members.
    NotifMembers(i64),
    /// Handling is over.
    Done,
}

/// The handler's state for one message.
pub struct HandlerState {
    /// The message text.
    pub content: String,
    /// The guild the message was posted in; 0 where it has none.
    pub guild_id: i64,
    pub stage: Stage,
}

/// What a piece of outside work gave back.
pub enum Event {
    /// The message arrived.
    Begin,
    /// The guild's name database entries, `[discord, minecraft]`.
    Names(Vec<[String; 2]>),
    /// The author's permissions in the channel.
    Permissions { manage_roles: bool, administrator: bool },
    /// The Minecraft user looked up by name, if found.
    McUser(Option<McUsername>),
    /// The answer of a verification or an unverification.
    Outcome(Result<String, String>),
    /// Whether the Wynncraft guild exists.
    RealGuild(bool),
    /// A guild setting, if set.
    Config(Option<String>),
    /// The Wynncraft guild's members, `[name, uuid]`.
    Members(Vec<[String; 2]>),
}

/// Outside work to do next; its result comes back as an `Event`.
pub enum Query {
    /// Read the guild's name database (`Event::Names`).
    Names { guild_id: i64 },
    /// Look up the author's permissions (`Event::Permissions`).
    Permissions,
    /// Look up a Minecraft user by name (`Event::McUser`).
    McUser { name: String },
    /// Verify this user (`Event::Outcome`).
    Verify { guild_id: i64, dc_user: DcUsername, mc_user: McUsername },
    /// Unverify this user (`Event::Outcome`).
    Unverify { guild_id: i64, dc_user: DcUsername },
    /// Ask the Wynncraft API whether the guild exists (`Event::RealGuild`).
    RealGuild { prefix: String },
    /// Read a guild setting (`Event::Config`).
    Config { guild_id: i64, key: String },
    /// Ask the Wynncraft API for the guild's members (`Event::Members`).
    Members { prefix: String },
}

/// Something to do at once, in order, before the next query.
pub enum Effect {
    /// Reply to the message.
    Reply(String),
    /// Send the list of verified members: a titled embed whose fields are
    /// `[name, value]` pairs, in order.
    ListEmbed { title: String, fields: Vec<[String; 2]> },
    /// Store a guild setting.
    PushConfig { guild_id: i64, key: String, value: String },
}

/// What one step of handling asks for.
pub struct Step {
    pub effects: Vec<Effect>,
    pub query: Option<Query>,
}

// The same, as plain values.

pub enum StageView {
    Start,
    ListNames,
    WhoisNames,
    Permissions,
    McLookup(Seq<char>),
    Outcome,
    GuildCheck,
    NotifGuildName(i64),
    NotifGuildCheck(i64, Seq<char>),
    NotifMembers(i64),
    Done,
}

pub struct StateView {
    pub content: Seq<char>,
    pub guild_id: i64,
    pub stage: StageView,
}

pub enum EventView {
    Begin,
    Names(Seq<Seq<Seq<char>>>),
    Permissions(bool, bool),
    McUser(Option<(Seq<char>, Seq<char>)>),
    Outcome(Result<Seq<char>, Seq<char>>),
    RealGuild(bool),
    Config(Option<Seq<char>>),
    Members(Seq<Seq<Seq<char>>>),
}

pub enum QueryView {
    Names(i64),
    Permissions,
    McUser(Seq<char>),
    Verify(i64, Seq<char>, (Seq<char>, Seq<char>)),
    Unverify(i64, Seq<char>),
    RealGuild(Seq<char>),
    Config(i64, Seq<char>),
    Members(Seq<char>),
}

pub enum EffectView {
    Reply(Seq<char>),
    ListEmbed(Seq<char>, Seq<Seq<Seq<char>>>),
    PushConfig(i64, Seq<char>, Seq<char>),
}

pub struct StepView {
    pub effects: Seq<EffectView>,
    pub query: Option<QueryView>,
}

impl View for Stage {
    type V = StageView;

    open spec fn view(&self) -> StageView {
        match self {
            Stage::Start => StageView::Start,
            Stage::ListNames => StageView::ListNames,
            Stage::WhoisNames => StageView::WhoisNames,
            Stage::Permissions => StageView::Permissions,
            Stage::McLookup(dc) => StageView::McLookup(dc.pingid@),
            Stage::Outcome => StageView::Outcome,
            Stage::GuildCheck => StageView::GuildCheck,
            Stage::NotifGuildName(ch) => StageView::NotifGuildName(*ch),
            Stage::NotifGuildCheck(ch, name) => StageView::NotifGuildCheck(*ch, name@),
            Stage::NotifMembers(ch) => StageView::NotifMembers(*ch),
            Stage::Done => StageView::Done,
        }
    }
}

impl View for HandlerState {
    type V = StateView;

    open spec fn view(&self) -> StateView {
        StateView { content: self.content@, guild_id: self.guild_id, stage: self.stage@ }
    }
}

impl View for Event {
    type V = EventView;

    open spec fn view(&self) -> EventView {
        match self {
            Event::Begin => EventView::Begin,
            Event::Names(ns) => EventView::Names(ns.deep_view()),
            Event::Permissions { manage_roles, administrator } => EventView::Permissions(
                *manage_roles,
                *administrator,
            ),
            Event::McUser(m) => EventView::McUser(
                match m {
                    Some(u) => Some((u.name@, u.uuid@)),
                    None => None,
                },
            ),
            Event::Outcome(r) => EventView::Outcome(
                match r {
                    Ok(s) => Ok(s@),
                    Err(s) => Err(s@),
                },
            ),
            Event::RealGuild(b) => EventView::RealGuild(*b),
            Event::Config(c) => EventView::Config(
                match c {
                    Some(s) => Some(s@),
                    None => None,
                },
            ),
            Event::Members(ms) => EventView::Members(ms.deep_view()),
        }
    }
}

impl View for Query {
    type V = QueryView;

    open spec fn view(&self) -> QueryView {
        match self {
            Query::Names { guild_id } => QueryView::Names(*guild_id),
            Query::Permissions => QueryView::Permissions,
            Query::McUser { name } => QueryView::McUser(name@),
            Query::Verify { guild_id, dc_user, mc_user } => QueryView::Verify(
                *guild_id,
                dc_user.pingid@,
                (mc_user.name@, mc_user.uuid@),
            ),
            Query::Unverify { guild_id, dc_user } => QueryView::Unverify(
                *guild_id,
                dc_user.pingid@,
            ),
            Query::RealGuild { prefix } => QueryView::RealGuild(prefix@),
            Query::Config { guild_id, key } => QueryView::Config(*guild_id, key@),
            Query::Members { prefix } => QueryView::Members(prefix@),
        }
    }
}

impl DeepView for Effect {
    type V = EffectView;

    open spec fn deep_view(&self) -> EffectView {
        match self {
            Effect::Reply(s) => EffectView::Reply(s@),
            Effect::ListEmbed { title, fields } => EffectView::ListEmbed(
                title@,
                fields.deep_view(),
            ),
            Effect::PushConfig { guild_id, key, value } => EffectView::PushConfig(
                *guild_id,
                key@,
                value@,
            ),
        }
    }
}

impl View for Step {
    type V = StepView;

    open spec fn view(&self) -> StepView {
        StepView {
            effects: self.effects.deep_view(),
            query: match self.query {
                Some(q) => Some(q@),
                None => None,
            },
        }
    }
}

// ---------------------------------------------------------------------
// Executable steps
// ---------------------------------------------------------------------

fn text(s: &str) -> (r: String)
    ensures
        r@ == s@,
{
    s.to_string()
}

fn finish_with(effects: Vec<Effect>) -> (r: (Stage, Step))
    ensures
        (r.0@, r.1@) == finish(effects.deep_view()),
{
    (Stage::Done, Step { effects, query: None })
}

fn reply_done(reply: String) -> (r: (Stage, Step))
    ensures
        (r.0@, r.1@) == reply_and_finish(reply@),
{
    let mut effects: Vec<Effect> = Vec::new();
    effects.push(Effect::Reply(reply));
    assert(effects.deep_view() =~= seq![EffectView::Reply(reply@)]);
    finish_with(effects)
}

fn ask_with(stage: Stage, effects: Vec<Effect>, query: Query) -> (r: (Stage, Step))
    ensures
        (r.0@, r.1@) == ask(stage@, effects.deep_view(), query@),
{
    (stage, Step { effects, query: Some(query) })
}

fn nothing() -> (r: Vec<Effect>)
    ensures
        r.deep_view() == Seq::<EffectView>::empty(),
{
    let r: Vec<Effect> = Vec::new();
    assert(r.deep_view() =~= Seq::<EffectView>::empty());
    r
}

/// The help text.
pub fn help_text() -> (r: String)
    ensures
        r@ == help_spec(),
{
    let mut r = text("Running bot version **");
    r.append(BOT_VERSION);
    r.append(HELP_REST);
    r
}

fn on_begin_exec(content: &String, guild_id: i64) -> (r: (Stage, Step))
    ensures
        (r.0@, r.1@) == on_begin(content@, guild_id),
{
    let cmd = classify(content.as_str());
    match cmd {
        Command::Ignore => finish_with(nothing()),
        Command::Help => reply_done(help_text()),
        Command::List => {
            if guild_id == 0 {
                reply_done(text(
                    "ERROR: Guild ID wasn't found! Either not a guild, or an error happened somewhere, report to Memarios please.",
                ))
            } else {
                ask_with(Stage::ListNames, nothing(), Query::Names { guild_id })
            }
        },
        Command::Whois => {
            let args = split_on(content.as_str(), ' ');
            if args.len() < 3 {
                reply_done(text("Command requires 2 arguments\nUsage: w!whois [dc | mc] [discord-name]"))
            } else if guild_id == 0 {
                reply_done(text(
                    "ERROR: Guild ID wasn't found! Either not a guild, or an error happened somewhere, report to Memarios please.",
                ))
            } else {
                ask_with(Stage::WhoisNames, nothing(), Query::Names { guild_id })
            }
        },
        _ => ask_with(Stage::Permissions, nothing(), Query::Permissions),
    }
}

fn on_list_names_exec(names: Vec<[String; 2]>) -> (r: (Stage, Step))
    ensures
        (r.0@, r.1@) == on_list_names(names.deep_view()),
{
    if names.len() == 0 {
        reply_done(text("This server has no verified members"))
    } else {
        let fields = list_embed_fields(&names);
        let title = text("Verified members");
        let ghost fv = fields.deep_view();
        let ghost tv = title@;
        let mut effects: Vec<Effect> = Vec::new();
        effects.push(Effect::ListEmbed { title, fields });
        assert(effects.deep_view() =~= seq![EffectView::ListEmbed(tv, fv)]);
        finish_with(effects)
    }
}

/// The fields of the list of verified members (`embed_fields_spec`).
pub fn list_embed_fields(names: &Vec<[String; 2]>) -> (r: Vec<[String; 2]>)
    ensures
        r.deep_view() == embed_fields_spec(names.deep_view()),
{
    let mut fields: Vec<[String; 2]> = Vec::new();
    let mut i: usize = 0;
    while i < names.len()
        invariant
            i <= names@.len(),
            fields.deep_view() == embed_fields_spec(names.deep_view().take(i as int)),
        decreases names.len() - i,
    {
        let ghost before = fields.deep_view();
        let name = &names[i];
        let field: [String; 2] = [name[1].clone(), name[0].clone()];
        proof {
            assert(field.deep_view() =~= seq![name.deep_view()[1], name.deep_view()[0]]);
        }
        fields.push(field);
        proof {
            let nv = names.deep_view();
            assert(nv.take(i + 1) =~= nv.take(i as int).push(nv[i as int]));
            assert(fields.deep_view() =~= before.push(field.deep_view()));
            assert(embed_fields_spec(nv.take(i + 1)) =~= embed_fields_spec(nv.take(i as int)).push(
                seq![nv[i as int][1], nv[i as int][0]],
            ));
        }
        i = i + 1;
    }
    assert(names.deep_view().take(names.len() as int) =~= names.deep_view());
    fields
}

fn whois_replies_exec(names: &Vec<[String; 2]>, target: &str, dc_side: bool) -> (r: Vec<Effect>)
    ensures
        r.deep_view() == whois_replies(names.deep_view(), target@, dc_side),
{
    let mut effects: Vec<Effect> = Vec::new();
    let mut i: usize = 0;
    assert(names.deep_view().take(0) =~= Seq::<Seq<Seq<char>>>::empty());
    assert(effects.deep_view() =~= Seq::<EffectView>::empty());
    while i < names.len()
        invariant
            i <= names@.len(),
            effects.deep_view() == whois_replies(
                names.deep_view().take(i as int),
                target@,
                dc_side,
            ),
        decreases names.len() - i,
    {
        let ghost nv = names.deep_view();
        let ghost before = effects.deep_view();
        assert(nv.take(i + 1).drop_last() =~= nv.take(i as int));
        assert(nv.take(i + 1).last() == names@[i as int].deep_view());
        let name = &names[i];
        assert(name.deep_view()[0] == name[0]@);
        assert(name.deep_view()[1] == name[1]@);
        if dc_side && same_text(name[0].as_str(), target) {
            let mut reply = text("User is verified as \"");
            reply.append(name[1].as_str());
            reply.append("\" in Minecraft");
            let ghost rv = reply@;
            effects.push(Effect::Reply(reply));
            assert(rv == whois_found_mc_spec(name[1]@));
            assert(effects.deep_view() =~= before.push(EffectView::Reply(rv)));
        } else if !dc_side && same_text(name[1].as_str(), target) {
            let mut reply = text("User is verified as \"");
            reply.append(name[0].as_str());
            reply.append("\" in Discord");
            let ghost rv = reply@;
            effects.push(Effect::Reply(reply));
            assert(rv == whois_found_dc_spec(name[0]@));
            assert(effects.deep_view() =~= before.push(EffectView::Reply(rv)));
        }
        i = i + 1;
    }
    assert(names.deep_view().take(names.len() as int) =~= names.deep_view());
    effects
}

fn on_whois_names_exec(content: &String, names: Vec<[String; 2]>) -> (r: (Stage, Step))
    ensures
        (r.0@, r.1@) == on_whois_names(content@, names.deep_view()),
{
    let args = split_on(content.as_str(), ' ');
    if args.len() < 3 {
        return finish_with(nothing());
    }
    assert(args.deep_view()[1] == args@[1]@);
    assert(args.deep_view()[2] == args@[2]@);
    let mode = to_lowercase(args[1].as_str());
    proof {
        reveal_strlit("dc");
        reveal_strlit("mc");
    }
    assert(mode@ == lowercase_of(args@[1]@));
    let replies = if same_text(mode.as_str(), "dc") {
        whois_replies_exec(&names, args[2].as_str(), true)
    } else if same_text(mode.as_str(), "mc") {
        whois_replies_exec(&names, args[2].as_str(), false)
    } else {
        let mut reply = text("\"");
        reply.append(args[1].as_str());
        reply.append("\" is not a valid mode, use DC or MC");
        let ghost rv = reply@;
        let mut effects: Vec<Effect> = Vec::new();
        effects.push(Effect::Reply(reply));
        assert(effects.deep_view() =~= seq![EffectView::Reply(bad_mode_spec(args@[1]@))]);
        effects
    };
    finish_with(replies)
}

fn on_permissions_exec(
    content: &String,
    guild_id: i64,
    manage_roles: bool,
    administrator: bool,
) -> (r: (Stage, Step))
    ensures
        (r.0@, r.1@) == on_permissions(content@, guild_id, manage_roles, administrator),
{
    let args = split_on(content.as_str(), ' ');
    let cmd = classify(content.as_str());
    if !manage_roles {
        return reply_done(text("You don't have the permission to do that"));
    }
    if cmd == Command::Verify {
        if args.len() < 3 {
            return reply_done(
                text("Command requires 2 arguments\nUsage: w!verify [discord-ping] [minecraft-user]"),
            );
        }
        assert(args.deep_view()[1] == args@[1]@);
        assert(args.deep_view()[2] == args@[2]@);
        return match DcUsername::try_from_pingid(args[1].as_str()) {
            None => reply_done(
                text("Please ping the user or format as <@id> to ensure it gets the right person."),
            ),
            Some(dc_user) => ask_with(
                Stage::McLookup(dc_user),
                nothing(),
                Query::McUser { name: args[2].clone() },
            ),
        };
    }
    if cmd == Command::Unverify {
        if args.len() < 2 {
            return reply_done(text("Command requires 1 argument\nUsage: w!unverify [discord-ping]"));
        }
        assert(args.deep_view()[1] == args@[1]@);
        return match DcUsername::try_from_pingid(args[1].as_str()) {
            None => reply_done(
                text("Please ping the user or format as <@id> to ensure it gets the right person."),
            ),
            Some(dc_user) => {
                if guild_id == 0 {
                    reply_done(text(
                        "ERROR: Guild ID wasn't found! Either not a guild, or an error happened somewhere, report to Memarios please.",
                    ))
                } else {
                    ask_with(Stage::Outcome, nothing(), Query::Unverify { guild_id, dc_user })
                }
            },
        };
    }
    if !administrator {
        return reply_done(text("You don't have the permission to do that"));
    }
    if cmd == Command::VerifiedRole {
        if args.len() < 2 {
            return reply_done(text("Command requires 1 argument\nUsage: w!verifiedrole [role-id]"));
        }
        assert(args.deep_view()[1] == args@[1]@);
        let role_id: u64 = match parse_u64(args[1].as_str()) {
            Some(id) => id,
            None => 0,
        };
        if role_id == 0 {
            return reply_done(text("The ID you provided couldn't be parsed (probably incorrect)"));
        }
        if guild_id == 0 {
            return reply_done(text(
                "ERROR: Guild ID wasn't found! Either not a guild, or an error happened somewhere, report to Memarios please.",
            ));
        }
        let value = format_u64(role_id);
        let ghost vv = value@;
        let mut effects: Vec<Effect> = Vec::new();
        effects.push(Effect::PushConfig { guild_id, key: text(VERIFIED_ROLE_KEY), value });
        effects.push(Effect::Reply(text("Verified role has been saved")));
        assert(effects.deep_view() =~= seq![
            EffectView::PushConfig(guild_id, VERIFIED_ROLE_KEY@, vv),
            EffectView::Reply(verifiedrole_saved_spec()),
        ]);
        return finish_with(effects);
    }
    if cmd == Command::GuildName {
        if args.len() < 2 {
            return reply_done(text("Command requires 1 argument\nUsage: w!guildname [guild-name]"));
        }
        assert(args.deep_view()[1] == args@[1]@);
        return ask_with(Stage::GuildCheck, nothing(), Query::RealGuild { prefix: args[1].clone() });
    }
    if cmd == Command::NotifChannel {
        if args.len() < 2 {
            return reply_done(
                text("Command requires 1 argument\nUsage: w!notifchannel [channel-id]"),
            );
        }
        assert(args.deep_view()[1] == args@[1]@);
        let notif_channelid: i64 = match parse_i64(args[1].as_str()) {
            Some(id) => id,
            None => 0,
        };
        if notif_channelid == 0 {
            return reply_done(text("Invalid channel ID"));
        }
        if guild_id == 0 {
            return reply_done(text(
                "ERROR: Guild ID wasn't found! Either not a guild, or an error happened somewhere, report to Memarios please.",
            ));
        }
        return ask_with(
            Stage::NotifGuildName(notif_channelid),
            nothing(),
            Query::Config { guild_id, key: text(GUILD_NAME_KEY) },
        );
    }
    if cmd == Command::VetRole {
        if args.len() < 2 {
            return reply_done(text("Command requires 1 argument\nUsage: w!vetrole [role-id]"));
        }
        assert(args.deep_view()[1] == args@[1]@);
        let role_id: u64 = match parse_u64(args[1].as_str()) {
            Some(id) => id,
            None => 0,
        };
        if role_id == 0 {
            return reply_done(text("The ID you provided couldn't be parsed (probably incorrect)"));
        }
        if guild_id == 0 {
            return reply_done(text(
                "ERROR: Guild ID wasn't found! Either not a guild, or an error happened somewhere, report to Memarios please.",
            ));
        }
        let value = format_u64(role_id);
        let ghost vv = value@;
        let mut effects: Vec<Effect> = Vec::new();
        effects.push(Effect::PushConfig { guild_id, key: text(VETERAN_ROLE_KEY), value });
        effects.push(Effect::Reply(text("Veteran role has been saved")));
        assert(effects.deep_view() =~= seq![
            EffectView::PushConfig(guild_id, VETERAN_ROLE_KEY@, vv),
            EffectView::Reply(vetrole_saved_spec()),
        ]);
        return finish_with(effects);
    }
    if cmd == Command::RemovedRoles {
        let roles = match strip_prefix(content.as_str(), "w!removedroles ") {
            None => String::new(),
            Some(rest) => rest,
        };
        proof {
            reveal_strlit("w!removedroles ");
        }
        assert(roles@ =~= removed_roles_arg(content@));
        if guild_id == 0 {
            return reply_done(text(
                "ERROR: Guild ID wasn't found! Either not a guild, or an error happened somewhere, report to Memarios please.",
            ));
        }
        let ghost rv = roles@;
        let mut effects: Vec<Effect> = Vec::new();
        effects.push(Effect::PushConfig { guild_id, key: text(REMOVED_ROLES_KEY), value: roles });
        effects.push(Effect::Reply(text("Roles have been saved")));
        assert(effects.deep_view() =~= seq![
            EffectView::PushConfig(guild_id, REMOVED_ROLES_KEY@, rv),
            EffectView::Reply(roles_saved_spec()),
        ]);
        return finish_with(effects);
    }
    finish_with(nothing())
}

fn on_mc_user_exec(guild_id: i64, dc_user: DcUsername, mc: Option<McUsername>) -> (r: (
    Stage,
    Step,
))
    ensures
        (r.0@, r.1@) == on_mc_user(
            guild_id,
            dc_user.pingid@,
            match mc {
                Some(u) => Some((u.name@, u.uuid@)),
                None => None,
            },
        ),
{
    match mc {
        None => reply_done(
            text("Couldn't find the Minecraft user from Mojang's API, did you write it correctly?"),
        ),
        Some(mc_user) => {
            if guild_id == 0 {
                reply_done(text(
                    "ERROR: Guild ID wasn't found! Either not a guild, or an error happened somewhere, report to Memarios please.",
                ))
            } else {
                ask_with(Stage::Outcome, nothing(), Query::Verify { guild_id, dc_user, mc_user })
            }
        },
    }
}

fn on_guild_check_exec(content: &String, guild_id: i64, found: bool) -> (r: (Stage, Step))
    ensures
        (r.0@, r.1@) == on_guild_check(content@, guild_id, found),
{
    let args = split_on(content.as_str(), ' ');
    if args.len() < 2 {
        return finish_with(nothing());
    }
    assert(args.deep_view()[1] == args@[1]@);
    if !found {
        return reply_done(text(
            "Could not find guild from Wynn's API. Did you write the name correctly? Use the 4 letter identification name instead of the full one.",
        ));
    }
    if guild_id == 0 {
        return reply_done(text(
            "ERROR: Guild ID wasn't found! Either not a guild, or an error happened somewhere, report to Memarios please.",
        ));
    }
    let mut effects: Vec<Effect> = Vec::new();
    effects.push(
        Effect::PushConfig { guild_id, key: text(GUILD_NAME_KEY), value: args[1].clone() },
    );
    effects.push(Effect::Reply(text("Guild name has been saved")));
    assert(effects.deep_view() =~= seq![
        EffectView::PushConfig(guild_id, GUILD_NAME_KEY@, args@[1]@),
        EffectView::Reply(guild_saved_spec()),
    ]);
    finish_with(effects)
}

fn on_notif_members_exec(guild_id: i64, channel: i64, members: Vec<[String; 2]>) -> (r: (
    Stage,
    Step,
))
    ensures
        (r.0@, r.1@) == on_notif_members(guild_id, channel, members.deep_view()),
{
    let wg_members = member_uuids(&members);
    let formatted_members = format_member_list(&wg_members);
    let channel_text = format_i64(channel);
    let ghost fv = formatted_members@;
    let ghost cv = channel_text@;
    let mut effects: Vec<Effect> = Vec::new();
    effects.push(
        Effect::PushConfig { guild_id, key: text(GUILD_MEMBERS_KEY), value: formatted_members },
    );
    effects.push(
        Effect::PushConfig { guild_id, key: text(NOTIF_CHANNEL_KEY), value: channel_text },
    );
    effects.push(Effect::Reply(text("Channel has been saved")));
    assert(effects.deep_view() =~= seq![
        EffectView::PushConfig(guild_id, GUILD_MEMBERS_KEY@, fv),
        EffectView::PushConfig(guild_id, NOTIF_CHANNEL_KEY@, cv),
        EffectView::Reply(channel_saved_spec()),
    ]);
    finish_with(effects)
}

impl HandlerState {
    /// The state in which a message posted in this guild (0: none) starts.
    pub fn new(content: String, guild_id: i64) -> (r: Self)
        ensures
            r@ == (StateView { content: content@, guild_id, stage: StageView::Start }),
    {
        HandlerState { content, guild_id, stage: Stage::Start }
    }

    /// Whether handling is over.
    pub fn is_done(&self) -> (r: bool)
        ensures
            r == (self.stage@ is Done),
    {
        match self.stage {
            Stage::Done => true,
            _ => false,
        }
    }
}

/// One step of handling a message (`step_spec`).
pub fn step(state: HandlerState, event: Event) -> (r: (HandlerState, Step))
    ensures
        (r.0@, r.1@) == step_spec(state@, event@),
{
    let HandlerState { content, guild_id, stage } = state;
    let (next, out) = match (stage, event) {
        (Stage::Start, Event::Begin) => on_begin_exec(&content, guild_id),
        (Stage::ListNames, Event::Names(ns)) => on_list_names_exec(ns),
        (Stage::WhoisNames, Event::Names(ns)) => on_whois_names_exec(&content, ns),
        (Stage::Permissions, Event::Permissions { manage_roles, administrator }) =>
            on_permissions_exec(&content, guild_id, manage_roles, administrator),
        (Stage::McLookup(dc_user), Event::McUser(mc)) => on_mc_user_exec(guild_id, dc_user, mc),
        (Stage::Outcome, Event::Outcome(res)) => match res {
            Ok(reply) => reply_done(reply),
            Err(reply) => reply_done(reply),
        },
        (Stage::GuildCheck, Event::RealGuild(found)) => on_guild_check_exec(&content, guild_id, found),
        (Stage::NotifGuildName(channel), Event::Config(setting)) => match setting {
            None => reply_done(text("Your guild name hasn't been set or is incorrect")),
            Some(name) => {
                let prefix = name.clone();
                ask_with(Stage::NotifGuildCheck(channel, name), nothing(), Query::RealGuild { prefix })
            },
        },
        (Stage::NotifGuildCheck(channel, name), Event::RealGuild(found)) => {
            if !found {
                finish_with(nothing())
            } else {
                ask_with(Stage::NotifMembers(channel), nothing(), Query::Members { prefix: name })
            }
        },
        (Stage::NotifMembers(channel), Event::Members(ms)) => on_notif_members_exec(
            guild_id,
            channel,
            ms,
        ),
        _ => finish_with(nothing()),
    };
    (HandlerState { content, guild_id, stage: next }, out)
}


// ---------------------------------------------------------------------
// Laws
// ---------------------------------------------------------------------

/// A message that does not start with `w!` is left alone: no effect and
/// no outside work.
pub proof fn lemma_non_commands_ignored(content: Seq<char>, guild_id: i64)
    requires
        !"w!"@.is_prefix_of(content),
    ensures
        step_spec(
            StateView { content, guild_id, stage: StageView::Start },
            EventView::Begin,
        ).1 == (StepView { effects: Seq::<EffectView>::empty(), query: None }),
        step_spec(
            StateView { content, guild_id, stage: StageView::Start },
            EventView::Begin,
        ).0.stage is Done,
{
}

/// `w!list` and `w!whois` are for everyone: their handling never asks for
/// the author's permissions, and once the guild's names are read it gives
/// its answer and is over.
pub proof fn lemma_everyone_commands_end_with_answer(
    content: Seq<char>,
    guild_id: i64,
    names: Seq<Seq<Seq<char>>>,
)
    requires
        command_of(content) == Command::List || command_of(content) == Command::Whois,
    ensures
        ({
            let (s1, first) = step_spec(
                StateView { content, guild_id, stage: StageView::Start },
                EventView::Begin,
            );
            let (s2, second) = step_spec(s1, EventView::Names(names));
            &&& first.query != Some(QueryView::Permissions)
            &&& (s1.stage is Done || first.query == Some(QueryView::Names(guild_id)))
            &&& s2.stage is Done
            &&& second.query is None
        }),
{
}

/// `w!list` once the guild's names are read: with no names it says that
/// the server has no verified members; with any names it sends, and only
/// sends, the embed titled "Verified members" with one field per name, in
/// order, named by the Minecraft name and holding the Discord mention.
/// Either way handling is over.
pub proof fn lemma_list_answer(content: Seq<char>, guild_id: i64, names: Seq<Seq<Seq<char>>>)
    ensures
        ({
            let (s2, out) = step_spec(
                StateView { content, guild_id, stage: StageView::ListNames },
                EventView::Names(names),
            );
            &&& s2.stage is Done
            &&& out.query is None
            &&& names.len() == 0 <==> out.effects == seq![
                EffectView::Reply("This server has no verified members"@),
            ]
            &&& names.len() > 0 ==> out.effects.len() == 1 && (out.effects[0] matches EffectView::ListEmbed(
                title,
                fields,
            ) && title == "Verified members"@ && fields.len() == names.len() && forall|i: int|
                0 <= i < names.len() ==> #[trigger] fields[i] == seq![names[i][1], names[i][0]])
        }),
{
    let (s2, out) = step_spec(
        StateView { content, guild_id, stage: StageView::ListNames },
        EventView::Names(names),
    );
    if names.len() > 0 {
        assert(!(out.effects[0] is Reply));
        assert(out.effects != seq![EffectView::Reply("This server has no verified members"@)]) by {
            if out.effects == seq![EffectView::Reply("This server has no verified members"@)] {
                assert(out.effects[0] is Reply);
            }
        }
    }
}

proof fn lemma_whois_replies_filter(
    names: Seq<Seq<Seq<char>>>,
    target: Seq<char>,
    dc_side: bool,
    p: spec_fn(Seq<Seq<char>>) -> bool,
    f: spec_fn(Seq<Seq<char>>) -> EffectView,
)
    requires
        forall|e: Seq<Seq<char>>|
            #[trigger] p(e) == if dc_side {
                e[0] == target
            } else {
                e[1] == target
            },
        forall|e: Seq<Seq<char>>|
            #[trigger] f(e) == if dc_side {
                EffectView::Reply("User is verified as \""@ + e[1] + "\" in Minecraft"@)
            } else {
                EffectView::Reply("User is verified as \""@ + e[0] + "\" in Discord"@)
            },
    ensures
        whois_replies(names, target, dc_side) == names.filter(p).map_values(f),
    decreases names.len(),
{
    reveal(Seq::filter);
    if names.len() == 0 {
        assert(names.filter(p).map_values(f) =~= Seq::<EffectView>::empty());
    } else {
        let rest = names.drop_last();
        let e = names.last();
        lemma_whois_replies_filter(rest, target, dc_side, p, f);
        if p(e) {
            assert(names.filter(p) == rest.filter(p).push(e));
            assert(rest.filter(p).push(e).map_values(f) =~= rest.filter(p).map_values(f).push(f(e)));
        } else {
            assert(names.filter(p) == rest.filter(p));
        }
    }
}

/// `w!whois` once the guild's names are read, with a mode and a name given:
/// in mode `dc` (any case) it answers one reply per entry whose Discord
/// side is the name, naming its Minecraft side; in mode `mc` (any case) one
/// per entry whose Minecraft side is the name, naming its Discord side; in
/// entry order, and nothing else. Handling is then over.
pub proof fn lemma_whois_answers(content: Seq<char>, guild_id: i64, names: Seq<Seq<Seq<char>>>)
    requires
        split_spec(content, ' ').len() >= 3,
    ensures
        ({
            let args = split_spec(content, ' ');
            let (s2, out) = step_spec(
                StateView { content, guild_id, stage: StageView::WhoisNames },
                EventView::Names(names),
            );
            &&& s2.stage is Done
            &&& out.query is None
            &&& lowercase_of(args[1]) == "dc"@ ==> out.effects == names.filter(
                |e: Seq<Seq<char>>| e[0] == args[2],
            ).map_values(
                |e: Seq<Seq<char>>|
                    EffectView::Reply("User is verified as \""@ + e[1] + "\" in Minecraft"@),
            )
            &&& lowercase_of(args[1]) == "mc"@ ==> out.effects == names.filter(
                |e: Seq<Seq<char>>| e[1] == args[2],
            ).map_values(
                |e: Seq<Seq<char>>|
                    EffectView::Reply("User is verified as \""@ + e[0] + "\" in Discord"@),
            )
            &&& lowercase_of(args[1]) != "dc"@ && lowercase_of(args[1]) != "mc"@ ==> out.effects
                == seq![
                EffectView::Reply("\""@ + args[1] + "\" is not a valid mode, use DC or MC"@),
            ]
        }),
{
    let args = split_spec(content, ' ');
    lemma_whois_replies_filter(
        names,
        args[2],
        true,
        |e: Seq<Seq<char>>| e[0] == args[2],
        |e: Seq<Seq<char>>|
            EffectView::Reply("User is verified as \""@ + e[1] + "\" in Minecraft"@),
    );
    lemma_whois_replies_filter(
        names,
        args[2],
        false,
        |e: Seq<Seq<char>>| e[1] == args[2],
        |e: Seq<Seq<char>>|
            EffectView::Reply("User is verified as \""@ + e[0] + "\" in Discord"@),
    );
    reveal_strlit("dc");
    reveal_strlit("mc");
    assert("dc"@ != "mc"@) by {
        assert("dc"@[0] != "mc"@[0]);
    }
}

/// `w!verifiedrole` and `w!vetrole` from an administrator with a role id
/// that reads as a non-zero number store that role's setting for the
/// message's guild, and the stored setting reads back as that same role.
pub proof fn lemma_role_setting_reads_back(content: Seq<char>, guild_id: i64, role: u64)
    requires
        command_of(content) == Command::VerifiedRole || command_of(content) == Command::VetRole,
        split_spec(content, ' ').len() >= 2,
        parse_u64_spec(split_spec(content, ' ')[1]) == Some(role),
        role != 0,
        guild_id != 0,
    ensures
        ({
            let (s2, out) = step_spec(
                StateView { content, guild_id, stage: StageView::Permissions },
                EventView::Permissions(true, true),
            );
            &&& s2.stage is Done
            &&& out.effects.len() == 2
            &&& out.effects[0] matches EffectView::PushConfig(g, key, value) && g == guild_id
                && role_id_or_default(value) == role && key == if command_of(content)
                == Command::VerifiedRole {
                VERIFIED_ROLE_KEY@
            } else {
                VETERAN_ROLE_KEY@
            }
        }),
{
    lemma_parse_format_u64(role);
}

/// `w!verify <ping> <name>` from a role manager in a guild looks up the
/// Minecraft user of that name, then asks to verify the pinged user as
/// exactly the user found (name and UUID), in the message's guild; where
/// no user is found it only says so.
pub proof fn lemma_verify_command_flow(
    content: Seq<char>,
    guild_id: i64,
    administrator: bool,
    found: Option<(Seq<char>, Seq<char>)>,
)
    requires
        command_of(content) == Command::Verify,
        split_spec(content, ' ').len() >= 3,
        is_ping_form(split_spec(content, ' ')[1]),
        guild_id != 0,
    ensures
        ({
            let args = split_spec(content, ' ');
            let (s1, out1) = step_spec(
                StateView { content, guild_id, stage: StageView::Permissions },
                EventView::Permissions(true, administrator),
            );
            let (s2, out2) = step_spec(s1, EventView::McUser(found));
            &&& out1.effects.len() == 0
            &&& out1.query == Some(QueryView::McUser(args[2]))
            &&& found matches Some(u) ==> out2.effects.len() == 0 && out2.query == Some(
                QueryView::Verify(guild_id, args[1], u),
            )
            &&& found is None ==> out2.query is None && out2.effects == seq![
                EffectView::Reply(
                    "Couldn't find the Minecraft user from Mojang's API, did you write it correctly?"@,
                ),
            ]
        }),
{
}

/// The `w!whois` answers are replies and nothing else.
proof fn lemma_whois_replies_only(names: Seq<Seq<Seq<char>>>, target: Seq<char>, dc_side: bool)
    ensures
        forall|k: int|
            0 <= k < whois_replies(names, target, dc_side).len() ==> (#[trigger] whois_replies(
                names,
                target,
                dc_side,
            )[k]) is Reply,
    decreases names.len(),
{
    if names.len() > 0 {
        lemma_whois_replies_only(names.drop_last(), target, dc_side);
    }
}

/// The stages that only an administrator's command reaches.
pub open spec fn admin_stage(stage: StageView) -> bool {
    ||| stage is GuildCheck
    ||| stage is NotifGuildName
    ||| stage is NotifGuildCheck
    ||| stage is NotifMembers
}

/// The stages that only a command of a role manager reaches.
pub open spec fn manager_stage(stage: StageView) -> bool {
    ||| stage is McLookup
    ||| stage is Outcome
}

/// The event tells that the author manages roles.
pub open spec fn grants_manage(e: EventView) -> bool {
    match e {
        EventView::Permissions(m, _) => m,
        _ => false,
    }
}

pub open spec fn stores_setting(step: StepView) -> bool {
    exists|k: int| 0 <= k < step.effects.len() && step.effects[k] is PushConfig
}

pub open spec fn changes_membership(step: StepView) -> bool {
    match step.query {
        Some(QueryView::Verify(_, _, _)) => true,
        Some(QueryView::Unverify(_, _)) => true,
        _ => false,
    }
}

/// The handling of a message through a run of events: the final state and
/// the steps, in order.
pub open spec fn run_spec(s: StateView, events: Seq<EventView>) -> (StateView, Seq<StepView>)
    decreases events.len(),
{
    if events.len() == 0 {
        (s, Seq::empty())
    } else {
        let (s1, first) = step_spec(s, events[0]);
        let (last, rest) = run_spec(s1, events.drop_first());
        (last, seq![first] + rest)
    }
}

/// One step stores a setting or reaches an administrator's stage only from
/// such a stage, or on learning that the author manages roles and is an
/// administrator.
pub proof fn lemma_step_admin(s: StateView, e: EventView)
    ensures
        admin_stage(step_spec(s, e).0.stage) || stores_setting(step_spec(s, e).1) ==> admin_stage(
            s.stage,
        ) || (s.stage is Permissions && e == EventView::Permissions(true, true)),
{
    let r = step_spec(s, e);
    if stores_setting(r.1) {
        let k = choose|k: int| 0 <= k < r.1.effects.len() && r.1.effects[k] is PushConfig;
        match (s.stage, e) {
            (StageView::WhoisNames, EventView::Names(ns)) => {
                let args = args_of(s.content);
                if args.len() >= 3 {
                    lemma_whois_replies_only(ns, args[2], true);
                    lemma_whois_replies_only(ns, args[2], false);
                }
            },
            _ => {},
        }
        assert(r.1.effects[k] is PushConfig);
    }
}

/// One step asks for a verification or an unverification, or reaches a
/// role manager's stage, only from such a stage, or on learning that the
/// author manages roles.
pub proof fn lemma_step_manager(s: StateView, e: EventView)
    ensures
        manager_stage(step_spec(s, e).0.stage) || changes_membership(step_spec(s, e).1)
            ==> manager_stage(s.stage) || (s.stage is Permissions && grants_manage(e)),
{
}

/// Settings are stored only for an author who manages roles and is an
/// administrator: however the outside work answers, handling a message
/// from its start stores a setting only if the permissions event said so.
pub proof fn lemma_settings_need_administrator(s: StateView, events: Seq<EventView>)
    requires
        !admin_stage(s.stage),
    ensures
        admin_stage(run_spec(s, events).0.stage) || (exists|i: int|
            0 <= i < run_spec(s, events).1.len() && stores_setting(
                #[trigger] run_spec(s, events).1[i],
            )) ==> exists|j: int|
            0 <= j < events.len() && #[trigger] events[j] == EventView::Permissions(true, true),
    decreases events.len(),
{
    if events.len() > 0 {
        let (s1, first) = step_spec(s, events[0]);
        let rest_events = events.drop_first();
        lemma_step_admin(s, events[0]);
        let r = run_spec(s, events);
        let rr = run_spec(s1, rest_events);
        assert(r.1 == seq![first] + rr.1);
        if admin_stage(s1.stage) {
            assert(events[0] == EventView::Permissions(true, true));
        } else {
            lemma_settings_need_administrator(s1, rest_events);
            if admin_stage(r.0.stage) || (exists|i: int|
                0 <= i < r.1.len() && stores_setting(#[trigger] r.1[i])) {
                if stores_setting(first) {
                    assert(events[0] == EventView::Permissions(true, true));
                } else {
                    if !admin_stage(r.0.stage) {
                        let i = choose|i: int| 0 <= i < r.1.len() && stores_setting(#[trigger] r.1[i]);
                        assert(i > 0);
                        assert(rr.1[i - 1] == r.1[i]);
                    }
                    let j = choose|j: int|
                        0 <= j < rest_events.len() && #[trigger] rest_events[j]
                            == EventView::Permissions(true, true);
                    assert(events[j + 1] == rest_events[j]);
                }
            }
        }
    }
}

/// Verifications and unverifications are asked for only for an author who
/// manages roles: handling a message from a stage before any role
/// manager's command asks for one only if a permissions event said so.
pub proof fn lemma_membership_needs_manager(s: StateView, events: Seq<EventView>)
    requires
        !manager_stage(s.stage),
    ensures
        (exists|i: int|
            0 <= i < run_spec(s, events).1.len() && changes_membership(
                #[trigger] run_spec(s, events).1[i],
            )) ==> exists|j: int|
            0 <= j < events.len() && grants_manage(#[trigger] events[j]),
    decreases events.len(),
{
    if events.len() > 0 {
        let (s1, first) = step_spec(s, events[0]);
        let rest_events = events.drop_first();
        lemma_step_manager(s, events[0]);
        let r = run_spec(s, events);
        let rr = run_spec(s1, rest_events);
        assert(r.1 == seq![first] + rr.1);
        if manager_stage(s1.stage) || changes_membership(first) {
            assert(grants_manage(events[0]));
        } else {
            lemma_membership_needs_manager(s1, rest_events);
            if exists|i: int| 0 <= i < r.1.len() && changes_membership(#[trigger] r.1[i]) {
                let i = choose|i: int| 0 <= i < r.1.len() && changes_membership(#[trigger] r.1[i]);
                assert(i > 0);
                assert(rr.1[i - 1] == r.1[i]);
                let j = choose|j: int|
                    0 <= j < rest_events.len() && grants_manage(#[trigger] rest_events[j]);
                assert(events[j + 1] == rest_events[j]);
            }
        }
    }
}


/// The effect touches no guild but `guild_id`.
pub open spec fn effect_in_guild(e: EffectView, guild_id: i64) -> bool {
    match e {
        EffectView::PushConfig(g, _, _) => g == guild_id,
        _ => true,
    }
}

/// The query touches no guild but `guild_id`.
pub open spec fn query_in_guild(q: Option<QueryView>, guild_id: i64) -> bool {
    match q {
        Some(QueryView::Names(g)) => g == guild_id,
        Some(QueryView::Verify(g, _, _)) => g == guild_id,
        Some(QueryView::Unverify(g, _)) => g == guild_id,
        Some(QueryView::Config(g, _)) => g == guild_id,
        _ => true,
    }
}

/// Handling a message reads and changes the data of the guild it was
/// posted in and of no other: every setting stored and every database,
/// setting or member asked about belongs to that guild, and the message and
/// guild stay those of the state.
pub proof fn lemma_step_stays_in_guild(s: StateView, e: EventView)
    ensures
        step_spec(s, e).0.content == s.content,
        step_spec(s, e).0.guild_id == s.guild_id,
        query_in_guild(step_spec(s, e).1.query, s.guild_id),
        forall|k: int|
            0 <= k < step_spec(s, e).1.effects.len() ==> effect_in_guild(
                #[trigger] step_spec(s, e).1.effects[k],
                s.guild_id,
            ),
{
    let r = step_spec(s, e);
    assert forall|k: int| 0 <= k < r.1.effects.len() implies effect_in_guild(
        #[trigger] r.1.effects[k],
        s.guild_id,
    ) by {
        match (s.stage, e) {
            (StageView::WhoisNames, EventView::Names(ns)) => {
                let args = args_of(s.content);
                if args.len() >= 3 {
                    lemma_whois_replies_only(ns, args[2], true);
                    lemma_whois_replies_only(ns, args[2], false);
                }
            },
            _ => {},
        }
    }
}

} // verus!
