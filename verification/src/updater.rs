//! The decisions of the hourly update, which runs guild by guild. For each
//! guild whose Wynncraft guild is set and known, it unverifies the recorded
//! users whose Minecraft UUID is no longer among the Wynncraft guild's
//! members; where a notification channel is set, it first announces the
//! members who joined since the last check (by the name that a lookup of
//! their UUID gives) and stores the current member list. A guild whose
//! Wynncraft guild is not set, or not known, is skipped.
//!
//! Like the command handler, it is a step function: `update_step` takes the
//! state and what the last piece of outside work gave back, and returns the
//! new state, the effects to perform now and the next query.
use vstd::prelude::*;

use crate::guildconfig::{GUILD_MEMBERS_KEY, GUILD_NAME_KEY, NOTIF_CHANNEL_KEY};
use crate::handler::{on_notif_members, EffectView};
use crate::structs::DcUsername;
use crate::sync::{
    format_member_list, join_message, join_message_spec, lemma_stored_list_has_no_new_members,
    member_list_text, member_uuids, members_to_unverify, new_guild_members, new_members_spec,
    to_unverify_spec, uuids_of, in_guild, lemma_to_unverify_is_mentions_of_leavers,
    lemma_unverified_are_those_who_left,
};
use crate::text::{free_of, lines_text, parse_u64, parse_u64_spec};

verus! {

broadcast use vstd::string::group_string_axioms;

/// Where the update stands: what it waits for.
pub enum UpdateStage {
    /// Nothing done yet; waits for `UpdateEvent::Begin`.
    Start,
    /// Waits for the current guild's Wynncraft guild name setting.
    GuildName,
    /// Waits for whether this Wynncraft guild exists.
    RealGuild(String),
    /// Waits for the members of this Wynncraft guild.
    Members(String),
    /// Waits for the guild's records; holds the Wynncraft members.
    Records(Vec<[String; 2]>),
    /// Waits for the notification channel setting; holds the Wynncraft
    /// members and the records.
    NotifChannel(Vec<[String; 2]>, Vec<[String; 3]>),
    /// Waits for the stored member list; holds the Wynncraft members, the
    /// records and the channel setting.
    StoredMembers(Vec<[String; 2]>, Vec<[String; 3]>, String),
    /// Waits for the name of the new member `next` of `joined`; holds the
    /// Wynncraft members, the records and the channel setting.
    Announce {
        members: Vec<[String; 2]>,
        records: Vec<[String; 3]>,
        channel: String,
        joined: Vec<[String; 2]>,
        next: usize,
    },
    /// The update is over. `completed` tells whether it went through all
    /// the guilds or stopped on an event it did not wait for.
    Finished { completed: bool },
}

/// The state of one hourly update.
pub struct UpdateState {
    /// The guilds to update, in order.
    pub guild_ids: Vec<i64>,
    /// The guild being updated.
    pub index: usize,
    pub stage: UpdateStage,
}

/// What a piece of outside work gave back.
pub enum UpdateEvent {
    Begin,
    /// A guild setting, if set.
    Config(Option<String>),
    /// Whether the Wynncraft guild exists.
    RealGuild(bool),
    /// The Wynncraft guild's members, `[name, uuid]`.
    Members(Vec<[String; 2]>),
    /// The guild's records, `[discord, minecraft name, minecraft uuid]`.
    Records(Vec<[String; 3]>),
    /// The Minecraft name that a UUID belongs to, if found.
    McName(Option<String>),
}

/// Outside work to do next.
pub enum UpdateQuery {
    Config { guild_id: i64, key: String },
    RealGuild { prefix: String },
    Members { prefix: String },
    Records { guild_id: i64 },
    /// Look up the Minecraft name of this UUID (`UpdateEvent::McName`).
    McName { uuid: String },
}

/// Something to do at once, in order.
pub enum UpdateEffect {
    /// Send this message to this channel.
    Notify { channel_id: u64, message: String },
    /// Store a guild setting.
    PushConfig { guild_id: i64, key: String, value: String },
    /// Unverify this user in this guild.
    Unverify { guild_id: i64, dc_user: DcUsername },
}

pub struct UpdateStep {
    pub effects: Vec<UpdateEffect>,
    pub query: Option<UpdateQuery>,
}

// The same, as plain values.

pub enum UpdateStageView {
    Start,
    GuildName,
    RealGuild(Seq<char>),
    Members(Seq<char>),
    Records(Seq<Seq<Seq<char>>>),
    NotifChannel(Seq<Seq<Seq<char>>>, Seq<Seq<Seq<char>>>),
    StoredMembers(Seq<Seq<Seq<char>>>, Seq<Seq<Seq<char>>>, Seq<char>),
    Announce(Seq<Seq<Seq<char>>>, Seq<Seq<Seq<char>>>, Seq<char>, Seq<Seq<Seq<char>>>, int),
    Finished(bool),
}

pub struct UpdateStateView {
    pub guild_ids: Seq<i64>,
    pub index: int,
    pub stage: UpdateStageView,
}

pub enum UpdateEventView {
    Begin,
    Config(Option<Seq<char>>),
    RealGuild(bool),
    Members(Seq<Seq<Seq<char>>>),
    Records(Seq<Seq<Seq<char>>>),
    McName(Option<Seq<char>>),
}

pub enum UpdateQueryView {
    Config(i64, Seq<char>),
    RealGuild(Seq<char>),
    Members(Seq<char>),
    Records(i64),
    McName(Seq<char>),
}

pub enum UpdateEffectView {
    Notify(u64, Seq<char>),
    PushConfig(i64, Seq<char>, Seq<char>),
    Unverify(i64, Seq<char>),
}

pub struct UpdateStepView {
    pub effects: Seq<UpdateEffectView>,
    pub query: Option<UpdateQueryView>,
}

impl View for UpdateStage {
    type V = UpdateStageView;

    open spec fn view(&self) -> UpdateStageView {
        match self {
            UpdateStage::Start => UpdateStageView::Start,
            UpdateStage::GuildName => UpdateStageView::GuildName,
            UpdateStage::RealGuild(n) => UpdateStageView::RealGuild(n@),
            UpdateStage::Members(n) => UpdateStageView::Members(n@),
            UpdateStage::Records(ms) => UpdateStageView::Records(ms.deep_view()),
            UpdateStage::NotifChannel(ms, rs) => UpdateStageView::NotifChannel(
                ms.deep_view(),
                rs.deep_view(),
            ),
            UpdateStage::StoredMembers(ms, rs, ch) => UpdateStageView::StoredMembers(
                ms.deep_view(),
                rs.deep_view(),
                ch@,
            ),
            UpdateStage::Announce { members, records, channel, joined, next } =>
                UpdateStageView::Announce(
                members.deep_view(),
                records.deep_view(),
                channel@,
                joined.deep_view(),
                *next as int,
            ),
            UpdateStage::Finished { completed } => UpdateStageView::Finished(*completed),
        }
    }
}

impl View for UpdateState {
    type V = UpdateStateView;

    open spec fn view(&self) -> UpdateStateView {
        UpdateStateView { guild_ids: self.guild_ids@, index: self.index as int, stage: self.stage@ }
    }
}

impl View for UpdateEvent {
    type V = UpdateEventView;

    open spec fn view(&self) -> UpdateEventView {
        match self {
            UpdateEvent::Begin => UpdateEventView::Begin,
            UpdateEvent::Config(c) => UpdateEventView::Config(
                match c {
                    Some(s) => Some(s@),
                    None => None,
                },
            ),
            UpdateEvent::RealGuild(b) => UpdateEventView::RealGuild(*b),
            UpdateEvent::Members(ms) => UpdateEventView::Members(ms.deep_view()),
            UpdateEvent::Records(rs) => UpdateEventView::Records(rs.deep_view()),
            UpdateEvent::McName(n) => UpdateEventView::McName(
                match n {
                    Some(s) => Some(s@),
                    None => None,
                },
            ),
        }
    }
}

impl View for UpdateQuery {
    type V = UpdateQueryView;

    open spec fn view(&self) -> UpdateQueryView {
        match self {
            UpdateQuery::Config { guild_id, key } => UpdateQueryView::Config(*guild_id, key@),
            UpdateQuery::RealGuild { prefix } => UpdateQueryView::RealGuild(prefix@),
            UpdateQuery::Members { prefix } => UpdateQueryView::Members(prefix@),
            UpdateQuery::Records { guild_id } => UpdateQueryView::Records(*guild_id),
            UpdateQuery::McName { uuid } => UpdateQueryView::McName(uuid@),
        }
    }
}

impl DeepView for UpdateEffect {
    type V = UpdateEffectView;

    open spec fn deep_view(&self) -> UpdateEffectView {
        match self {
            UpdateEffect::Notify { channel_id, message } => UpdateEffectView::Notify(
                *channel_id,
                message@,
            ),
            UpdateEffect::PushConfig { guild_id, key, value } => UpdateEffectView::PushConfig(
                *guild_id,
                key@,
                value@,
            ),
            UpdateEffect::Unverify { guild_id, dc_user } => UpdateEffectView::Unverify(
                *guild_id,
                dc_user.pingid@,
            ),
        }
    }
}

impl View for UpdateStep {
    type V = UpdateStepView;

    open spec fn view(&self) -> UpdateStepView {
        UpdateStepView {
            effects: self.effects.deep_view(),
            query: match self.query {
                Some(q) => Some(q@),
                None => None,
            },
        }
    }
}

// ---------------------------------------------------------------------
// Specification
// ---------------------------------------------------------------------

/// The channel a notification goes to: the stored setting read as a
/// `u64`, 0 where it does not parse.
pub open spec fn channel_id_of(setting: Seq<char>) -> u64 {
    match parse_u64_spec(setting) {
        Some(n) => n,
        None => 0,
    }
}

/// One unverification per user to unverify, in order.
pub open spec fn unverifications(guild_id: i64, pingids: Seq<Seq<char>>) -> Seq<UpdateEffectView> {
    pingids.map_values(|p: Seq<char>| UpdateEffectView::Unverify(guild_id, p))
}

/// The unverifications of the recorded users of a guild whose UUID is not
/// among its Wynncraft guild's members.
pub open spec fn leaver_effects(
    guild_id: i64,
    members: Seq<Seq<Seq<char>>>,
    records: Seq<Seq<Seq<char>>>,
) -> Seq<UpdateEffectView> {
    unverifications(guild_id, to_unverify_spec(records, uuids_of(members)))
}

/// What ends the work on a guild with a notification channel: the current
/// member list is stored, then the users who left are unverified.
pub open spec fn finish_guild(
    guild_id: i64,
    members: Seq<Seq<Seq<char>>>,
    records: Seq<Seq<Seq<char>>>,
) -> Seq<UpdateEffectView> {
    seq![
        UpdateEffectView::PushConfig(guild_id, GUILD_MEMBERS_KEY@, member_list_text(uuids_of(members))),
    ] + leaver_effects(guild_id, members, records)
}

/// The announcement of a new member whose name the lookup found.
pub open spec fn announcement(channel_setting: Seq<char>, name: Option<Seq<char>>) -> Seq<
    UpdateEffectView,
> {
    match name {
        Some(n) => seq![UpdateEffectView::Notify(channel_id_of(channel_setting), join_message_spec(n))],
        None => Seq::empty(),
    }
}

/// Go on with the guild at `index`: ask for its guild name setting, or
/// finish, complete, when there is none left.
pub open spec fn next_guild(guild_ids: Seq<i64>, index: int, effects: Seq<UpdateEffectView>) -> (
    UpdateStateView,
    UpdateStepView,
) {
    if index < guild_ids.len() {
        (
            UpdateStateView { guild_ids, index, stage: UpdateStageView::GuildName },
            UpdateStepView {
                effects,
                query: Some(UpdateQueryView::Config(guild_ids[index], GUILD_NAME_KEY@)),
            },
        )
    } else {
        (
            UpdateStateView { guild_ids, index, stage: UpdateStageView::Finished(true) },
            UpdateStepView { effects, query: None },
        )
    }
}

/// Go on with the announcements from new member `k`: ask for that member's
/// name, or, when none is left, end the guild and go on with the next.
pub open spec fn announce_from(
    s: UpdateStateView,
    members: Seq<Seq<Seq<char>>>,
    records: Seq<Seq<Seq<char>>>,
    channel: Seq<char>,
    joined: Seq<Seq<Seq<char>>>,
    k: int,
    effects: Seq<UpdateEffectView>,
) -> (UpdateStateView, UpdateStepView) {
    if k < joined.len() {
        (
            UpdateStateView {
                guild_ids: s.guild_ids,
                index: s.index,
                stage: UpdateStageView::Announce(members, records, channel, joined, k),
            },
            UpdateStepView { effects, query: Some(UpdateQueryView::McName(joined[k][1])) },
        )
    } else {
        next_guild(
            s.guild_ids,
            s.index + 1,
            effects + finish_guild(s.guild_ids[s.index], members, records),
        )
    }
}

/// Wait at `stage` for the answer to `q`.
pub open spec fn wait(s: UpdateStateView, stage: UpdateStageView, q: UpdateQueryView) -> (
    UpdateStateView,
    UpdateStepView,
) {
    (
        UpdateStateView { guild_ids: s.guild_ids, index: s.index, stage },
        UpdateStepView { effects: Seq::empty(), query: Some(q) },
    )
}

/// Stop the update; `completed` as `UpdateStage::Finished` says.
pub open spec fn stop(s: UpdateStateView, completed: bool) -> (UpdateStateView, UpdateStepView) {
    (
        UpdateStateView {
            guild_ids: s.guild_ids,
            index: s.index,
            stage: UpdateStageView::Finished(completed),
        },
        UpdateStepView { effects: Seq::empty(), query: None },
    )
}

/// One step of the update. A guild without a guild name setting, or whose
/// guild the API does not know, is skipped; a guild without a notification
/// channel has its leavers unverified and nothing announced. An event that
/// the stage does not wait for stops the update.
pub open spec fn update_step_spec(s: UpdateStateView, e: UpdateEventView) -> (
    UpdateStateView,
    UpdateStepView,
) {
    if !(0 <= s.index < s.guild_ids.len()) && !(s.stage is Start) {
        stop(s, false)
    } else {
        let g = s.guild_ids[s.index];
        match (s.stage, e) {
            (UpdateStageView::Start, UpdateEventView::Begin) => next_guild(
                s.guild_ids,
                0,
                Seq::empty(),
            ),
            (UpdateStageView::GuildName, UpdateEventView::Config(c)) => match c {
                None => next_guild(s.guild_ids, s.index + 1, Seq::empty()),
                Some(name) => wait(
                    s,
                    UpdateStageView::RealGuild(name),
                    UpdateQueryView::RealGuild(name),
                ),
            },
            (UpdateStageView::RealGuild(name), UpdateEventView::RealGuild(b)) => if b {
                wait(s, UpdateStageView::Members(name), UpdateQueryView::Members(name))
            } else {
                next_guild(s.guild_ids, s.index + 1, Seq::empty())
            },
            (UpdateStageView::Members(_), UpdateEventView::Members(ms)) => wait(
                s,
                UpdateStageView::Records(ms),
                UpdateQueryView::Records(g),
            ),
            (UpdateStageView::Records(ms), UpdateEventView::Records(rs)) => wait(
                s,
                UpdateStageView::NotifChannel(ms, rs),
                UpdateQueryView::Config(g, NOTIF_CHANNEL_KEY@),
            ),
            (UpdateStageView::NotifChannel(ms, rs), UpdateEventView::Config(c)) => match c {
                None => next_guild(s.guild_ids, s.index + 1, leaver_effects(g, ms, rs)),
                Some(ch) => wait(
                    s,
                    UpdateStageView::StoredMembers(ms, rs, ch),
                    UpdateQueryView::Config(g, GUILD_MEMBERS_KEY@),
                ),
            },
            (UpdateStageView::StoredMembers(ms, rs, ch), UpdateEventView::Config(c)) => {
                let stored = match c {
                    Some(t) => t,
                    None => Seq::empty(),
                };
                announce_from(s, ms, rs, ch, new_members_spec(stored, ms), 0, Seq::empty())
            },
            (
                UpdateStageView::Announce(ms, rs, ch, joined, k),
                UpdateEventView::McName(name),
            ) => if 0 <= k < joined.len() {
                announce_from(s, ms, rs, ch, joined, k + 1, announcement(ch, name))
            } else {
                stop(s, false)
            },
            _ => stop(s, false),
        }
    }
}

// ---------------------------------------------------------------------
// Executable steps
// ---------------------------------------------------------------------

fn key(k: &str) -> (r: String)
    ensures
        r@ == k@,
{
    k.to_string()
}

fn no_effects() -> (r: Vec<UpdateEffect>)
    ensures
        r.deep_view() == Seq::<UpdateEffectView>::empty(),
{
    let r: Vec<UpdateEffect> = Vec::new();
    assert(r.deep_view() =~= Seq::<UpdateEffectView>::empty());
    r
}

fn append_effects(effects: &mut Vec<UpdateEffect>, more: Vec<UpdateEffect>)
    ensures
        final(effects).deep_view() == old(effects).deep_view() + more.deep_view(),
{
    let ghost before = effects.deep_view();
    let ghost mv = more.deep_view();
    let mut more = more;
    effects.append(&mut more);
    assert(effects.deep_view() =~= before + mv);
}

fn stop_exec(guild_ids: Vec<i64>, index: usize, completed: bool) -> (r: (UpdateState, UpdateStep))
    ensures
        (r.0@, r.1@) == stop(
            UpdateStateView { guild_ids: guild_ids@, index: index as int, stage: UpdateStageView::Start },
            completed,
        ),
{
    (
        UpdateState { guild_ids, index, stage: UpdateStage::Finished { completed } },
        UpdateStep { effects: no_effects(), query: None },
    )
}

fn wait_exec(guild_ids: Vec<i64>, index: usize, stage: UpdateStage, q: UpdateQuery) -> (r: (
    UpdateState,
    UpdateStep,
))
    ensures
        (r.0@, r.1@) == wait(
            UpdateStateView { guild_ids: guild_ids@, index: index as int, stage: UpdateStageView::Start },
            stage@,
            q@,
        ),
{
    (UpdateState { guild_ids, index, stage }, UpdateStep { effects: no_effects(), query: Some(q) })
}

fn next_guild_exec(guild_ids: Vec<i64>, index: usize, effects: Vec<UpdateEffect>) -> (r: (
    UpdateState,
    UpdateStep,
))
    ensures
        (r.0@, r.1@) == next_guild(guild_ids@, index as int, effects.deep_view()),
{
    if index < guild_ids.len() {
        let g = guild_ids[index];
        (
            UpdateState { guild_ids, index, stage: UpdateStage::GuildName },
            UpdateStep {
                effects,
                query: Some(UpdateQuery::Config { guild_id: g, key: key(GUILD_NAME_KEY) }),
            },
        )
    } else {
        (
            UpdateState { guild_ids, index, stage: UpdateStage::Finished { completed: true } },
            UpdateStep { effects, query: None },
        )
    }
}

/// The unverifications of the users who left (`leaver_effects`).
fn leaver_effects_exec(guild_id: i64, members: &Vec<[String; 2]>, records: &Vec<[String; 3]>) -> (r:
    Vec<UpdateEffect>)
    ensures
        r.deep_view() == leaver_effects(guild_id, members.deep_view(), records.deep_view()),
{
    let uuids = member_uuids(members);
    let leaving = members_to_unverify(records, &uuids);
    let ghost unv = unverifications(guild_id, leaving.deep_view());
    let mut effects: Vec<UpdateEffect> = Vec::new();
    let mut j: usize = 0;
    assert(effects.deep_view() =~= unv.take(0));
    while j < leaving.len()
        invariant
            j <= leaving@.len(),
            unv == unverifications(guild_id, leaving.deep_view()),
            effects.deep_view() =~= unv.take(j as int),
        decreases leaving.len() - j,
    {
        assert(leaving.deep_view()[j as int] == leaving@[j as int]@);
        let dc_user = DcUsername::new_from_pingid(leaving[j].as_str());
        let ghost before = effects.deep_view();
        assert(unv[j as int] == UpdateEffectView::Unverify(guild_id, dc_user.pingid@));
        let ghost item = UpdateEffectView::Unverify(guild_id, dc_user.pingid@);
        effects.push(UpdateEffect::Unverify { guild_id, dc_user });
        assert(effects.deep_view() =~= before.push(item));
        assert(unv.take(j + 1) =~= unv.take(j as int).push(unv[j as int]));
        j = j + 1;
    }
    assert(unv.take(leaving.len() as int) =~= unv);
    effects
}

/// The end of the work on a guild with a channel (`finish_guild`).
fn finish_guild_exec(guild_id: i64, members: &Vec<[String; 2]>, records: &Vec<[String; 3]>) -> (r:
    Vec<UpdateEffect>)
    ensures
        r.deep_view() == finish_guild(guild_id, members.deep_view(), records.deep_view()),
{
    let uuids = member_uuids(members);
    let list = format_member_list(&uuids);
    let ghost lv = list@;
    let mut effects: Vec<UpdateEffect> = Vec::new();
    effects.push(UpdateEffect::PushConfig { guild_id, key: key(GUILD_MEMBERS_KEY), value: list });
    assert(effects.deep_view() =~= seq![
        UpdateEffectView::PushConfig(guild_id, GUILD_MEMBERS_KEY@, lv),
    ]);
    append_effects(&mut effects, leaver_effects_exec(guild_id, members, records));
    effects
}

/// Go on with the announcements from new member `k` (`announce_from`).
fn announce_from_exec(
    guild_ids: Vec<i64>,
    index: usize,
    members: Vec<[String; 2]>,
    records: Vec<[String; 3]>,
    channel: String,
    joined: Vec<[String; 2]>,
    k: usize,
    effects: Vec<UpdateEffect>,
) -> (r: (UpdateState, UpdateStep))
    requires
        index < guild_ids@.len(),
    ensures
        (r.0@, r.1@) == announce_from(
            UpdateStateView { guild_ids: guild_ids@, index: index as int, stage: UpdateStageView::Start },
            members.deep_view(),
            records.deep_view(),
            channel@,
            joined.deep_view(),
            k as int,
            effects.deep_view(),
        ),
{
    if k < joined.len() {
        assert(joined.deep_view()[k as int][1] == joined@[k as int][1]@);
        let uuid = joined[k][1].clone();
        (
            UpdateState {
                guild_ids,
                index,
                stage: UpdateStage::Announce { members, records, channel, joined, next: k },
            },
            UpdateStep { effects, query: Some(UpdateQuery::McName { uuid }) },
        )
    } else {
        let g = guild_ids[index];
        assert(index < guild_ids.len());
        let mut effects = effects;
        append_effects(&mut effects, finish_guild_exec(g, &members, &records));
        next_guild_exec(guild_ids, index + 1, effects)
    }
}

/// The channel a notification goes to (`channel_id_of`).
fn channel_id(setting: &str) -> (r: u64)
    ensures
        r == channel_id_of(setting@),
{
    match parse_u64(setting) {
        Some(id) => id,
        None => 0,
    }
}

impl UpdateState {
    /// The update of these guilds, not begun.
    pub fn new(guild_ids: Vec<i64>) -> (r: Self)
        ensures
            r@ == (UpdateStateView {
                guild_ids: guild_ids@,
                index: 0,
                stage: UpdateStageView::Start,
            }),
    {
        UpdateState { guild_ids, index: 0, stage: UpdateStage::Start }
    }
}

/// One step of the hourly update (`update_step_spec`).
pub fn update_step(state: UpdateState, event: UpdateEvent) -> (r: (UpdateState, UpdateStep))
    ensures
        (r.0@, r.1@) == update_step_spec(state@, event@),
{
    let UpdateState { guild_ids, index, stage } = state;
    let started = match stage {
        UpdateStage::Start => true,
        _ => false,
    };
    if !(index < guild_ids.len()) && !started {
        return stop_exec(guild_ids, index, false);
    }
    match (stage, event) {
        (UpdateStage::Start, UpdateEvent::Begin) => next_guild_exec(guild_ids, 0, no_effects()),
        (UpdateStage::GuildName, UpdateEvent::Config(c)) => match c {
            None => next_guild_exec(guild_ids, index + 1, no_effects()),
            Some(name) => {
                let prefix = name.clone();
                wait_exec(guild_ids, index, UpdateStage::RealGuild(name), UpdateQuery::RealGuild {
                    prefix,
                })
            },
        },
        (UpdateStage::RealGuild(name), UpdateEvent::RealGuild(found)) => {
            if found {
                let prefix = name.clone();
                wait_exec(guild_ids, index, UpdateStage::Members(name), UpdateQuery::Members {
                    prefix,
                })
            } else {
                next_guild_exec(guild_ids, index + 1, no_effects())
            }
        },
        (UpdateStage::Members(_), UpdateEvent::Members(ms)) => {
            let g = guild_ids[index];
            wait_exec(
                guild_ids,
                index,
                UpdateStage::Records(ms),
                UpdateQuery::Records { guild_id: g },
            )
        },
        (UpdateStage::Records(ms), UpdateEvent::Records(rs)) => {
            let g = guild_ids[index];
            wait_exec(
                guild_ids,
                index,
                UpdateStage::NotifChannel(ms, rs),
                UpdateQuery::Config { guild_id: g, key: key(NOTIF_CHANNEL_KEY) },
            )
        },
        (UpdateStage::NotifChannel(ms, rs), UpdateEvent::Config(c)) => match c {
            None => {
                let g = guild_ids[index];
                let effects = leaver_effects_exec(g, &ms, &rs);
                next_guild_exec(guild_ids, index + 1, effects)
            },
            Some(ch) => {
                let g = guild_ids[index];
                wait_exec(
                    guild_ids,
                    index,
                    UpdateStage::StoredMembers(ms, rs, ch),
                    UpdateQuery::Config { guild_id: g, key: key(GUILD_MEMBERS_KEY) },
                )
            },
        },
        (UpdateStage::StoredMembers(ms, rs, ch), UpdateEvent::Config(c)) => {
            let stored = match c {
                Some(t) => t,
                None => String::new(),
            };
            let joined = new_guild_members(stored.as_str(), &ms);
            announce_from_exec(guild_ids, index, ms, rs, ch, joined, 0, no_effects())
        },
        (
            UpdateStage::Announce { members, records, channel, joined, next },
            UpdateEvent::McName(name),
        ) => {
            if next < joined.len() {
                let mut effects: Vec<UpdateEffect> = Vec::new();
                match name {
                    Some(n) => {
                        let channel_id = channel_id(channel.as_str());
                        let message = join_message(n.as_str());
                        let ghost mv = message@;
                        effects.push(UpdateEffect::Notify { channel_id, message });
                        assert(effects.deep_view() =~= seq![
                            UpdateEffectView::Notify(channel_id, mv),
                        ]);
                    },
                    None => {
                        assert(effects.deep_view() =~= Seq::<UpdateEffectView>::empty());
                    },
                }
                announce_from_exec(
                    guild_ids,
                    index,
                    members,
                    records,
                    channel,
                    joined,
                    next + 1,
                    effects,
                )
            } else {
                stop_exec(guild_ids, index, false)
            }
        },
        _ => stop_exec(guild_ids, index, false),
    }
}

// ---------------------------------------------------------------------
// Laws
// ---------------------------------------------------------------------

/// After `w!notifchannel` has stored a guild's member list, an update that
/// sees the same members announces no one and looks up no name: from the
/// stored list it goes straight to storing the list again and unverifying
/// the users who left. The list is stored so that the first check does not
/// announce every member.
pub proof fn lemma_no_announcements_after_notifchannel(
    s: UpdateStateView,
    channel: i64,
    members: Seq<Seq<Seq<char>>>,
    records: Seq<Seq<Seq<char>>>,
    channel_setting: Seq<char>,
)
    requires
        0 <= s.index < s.guild_ids.len(),
        s.stage == UpdateStageView::StoredMembers(members, records, channel_setting),
        forall|i: int|
            0 <= i < members.len() ==> (#[trigger] members[i]).len() == 2 && free_of(
                members[i][1],
                '\n',
            ),
    ensures
        on_notif_members(s.guild_ids[s.index], channel, members).1.effects[0]
            matches EffectView::PushConfig(_, _, stored) && update_step_spec(
            s,
            UpdateEventView::Config(Some(stored)),
        ) == next_guild(
            s.guild_ids,
            s.index + 1,
            finish_guild(s.guild_ids[s.index], members, records),
        ),
{
    let stored = member_list_text(uuids_of(members));
    lemma_stored_list_has_no_new_members(members);
    assert(Seq::<UpdateEffectView>::empty() + finish_guild(s.guild_ids[s.index], members, records)
        =~= finish_guild(s.guild_ids[s.index], members, records));
}

/// A guild that is not set up, or whose Wynncraft guild is not known, is
/// skipped: the update goes on with the next guild, with nothing done for
/// this one.
pub proof fn lemma_unset_guild_is_skipped(s: UpdateStateView, e: UpdateEventView)
    requires
        0 <= s.index < s.guild_ids.len(),
        (s.stage is GuildName && e == UpdateEventView::Config(None)) || (s.stage is RealGuild
            && e == UpdateEventView::RealGuild(false)),
    ensures
        update_step_spec(s, e) == next_guild(s.guild_ids, s.index + 1, Seq::empty()),
{
}

/// A guild without a notification channel still has the users who left
/// its Wynncraft guild unverified, and nothing announced.
pub proof fn lemma_leavers_unverified_without_channel(
    s: UpdateStateView,
    members: Seq<Seq<Seq<char>>>,
    records: Seq<Seq<Seq<char>>>,
)
    requires
        0 <= s.index < s.guild_ids.len(),
        s.stage == UpdateStageView::NotifChannel(members, records),
    ensures
        update_step_spec(s, UpdateEventView::Config(None)) == next_guild(
            s.guild_ids,
            s.index + 1,
            leaver_effects(s.guild_ids[s.index], members, records),
        ),
{
}

/// The records of a guild whose Minecraft UUID matches no member of its
/// Wynncraft guild (dashes taken out of the Wynncraft UUIDs).
pub open spec fn leaving_records(
    members: Seq<Seq<Seq<char>>>,
    records: Seq<Seq<Seq<char>>>,
) -> Seq<Seq<Seq<char>>> {
    records.filter(|r: Seq<Seq<char>>| !in_guild(uuids_of(members), r[2]))
}

/// The unverifications of a guild's leavers are one per record whose UUID
/// is no longer among the Wynncraft guild's members, for that record's
/// mention, in the records' order, and nothing else: an unverification is
/// there if and only if some such record has that mention.
pub proof fn lemma_leaver_effects_one_per_leaver(
    guild_id: i64,
    members: Seq<Seq<Seq<char>>>,
    records: Seq<Seq<Seq<char>>>,
)
    ensures
        leaver_effects(guild_id, members, records) == leaving_records(members, records).map_values(
            |r: Seq<Seq<char>>| UpdateEffectView::Unverify(guild_id, r[0]),
        ),
        forall|e: UpdateEffectView|
            #[trigger] leaver_effects(guild_id, members, records).contains(e) <==> exists|i: int|
                0 <= i < records.len() && !in_guild(uuids_of(members), #[trigger] records[i][2])
                    && e == UpdateEffectView::Unverify(guild_id, records[i][0]),
{
    let w = uuids_of(members);
    let le = leaver_effects(guild_id, members, records);
    let leaving = to_unverify_spec(records, w);
    lemma_to_unverify_is_mentions_of_leavers(records, w);
    lemma_unverified_are_those_who_left(records, w);
    let lr = leaving_records(members, records);
    assert(le =~= lr.map_values(|r: Seq<Seq<char>>| UpdateEffectView::Unverify(guild_id, r[0])));
    assert forall|e: UpdateEffectView|
        #[trigger] le.contains(e) <==> exists|i: int|
            0 <= i < records.len() && !in_guild(w, #[trigger] records[i][2]) && e
                == UpdateEffectView::Unverify(guild_id, records[i][0]) by {
        if le.contains(e) {
            let k = choose|k: int| 0 <= k < le.len() && le[k] == e;
            assert(leaving.contains(leaving[k]));
        }
        if exists|i: int|
            0 <= i < records.len() && !in_guild(w, #[trigger] records[i][2]) && e
                == UpdateEffectView::Unverify(guild_id, records[i][0]) {
            let i = choose|i: int|
                0 <= i < records.len() && !in_guild(w, #[trigger] records[i][2]) && e
                    == UpdateEffectView::Unverify(guild_id, records[i][0]);
            assert(leaving.contains(records[i][0]));
            let k = choose|k: int| 0 <= k < leaving.len() && leaving[k] == records[i][0];
            assert(le[k] == e);
        }
    }
}

/// A guild without a notification channel: the step that learns it has
/// exactly the leavers' unverifications as effects, one per record whose
/// UUID left the Wynncraft guild, and goes on with the next guild.
pub proof fn lemma_no_channel_step_unverifies_every_leaver(
    s: UpdateStateView,
    members: Seq<Seq<Seq<char>>>,
    records: Seq<Seq<Seq<char>>>,
)
    requires
        0 <= s.index < s.guild_ids.len(),
        s.stage == UpdateStageView::NotifChannel(members, records),
    ensures
        update_step_spec(s, UpdateEventView::Config(None)).1.effects == leaving_records(
            members,
            records,
        ).map_values(|r: Seq<Seq<char>>| UpdateEffectView::Unverify(s.guild_ids[s.index], r[0])),
        s.index + 1 < s.guild_ids.len() ==> update_step_spec(s, UpdateEventView::Config(None)).1.query
            == Some(UpdateQueryView::Config(s.guild_ids[s.index + 1], GUILD_NAME_KEY@)),
{
    lemma_leaver_effects_one_per_leaver(s.guild_ids[s.index], members, records);
}

proof fn lemma_list_text_fold(lines: Seq<Seq<char>>)
    ensures
        lines_text(lines) == lines.fold_left(
            Seq::<char>::empty(),
            |acc: Seq<char>, u: Seq<char>| acc + u.push('\n'),
        ),
    decreases lines.len(),
{
    if lines.len() > 0 {
        lemma_list_text_fold(lines.drop_last());
    }
}

/// The end of the work on a guild with a notification channel: the
/// current member list (each UUID on a line) is stored, then exactly the
/// leavers are unverified, one per record whose UUID left, in order.
pub proof fn lemma_finish_guild_stores_list_and_unverifies_leavers(
    guild_id: i64,
    members: Seq<Seq<Seq<char>>>,
    records: Seq<Seq<Seq<char>>>,
)
    ensures
        finish_guild(guild_id, members, records) == seq![
            UpdateEffectView::PushConfig(
                guild_id,
                GUILD_MEMBERS_KEY@,
                members.map_values(|m: Seq<Seq<char>>| m[1]).fold_left(
                    Seq::<char>::empty(),
                    |acc: Seq<char>, u: Seq<char>| acc + u.push('\n'),
                ),
            ),
        ] + leaving_records(members, records).map_values(
            |r: Seq<Seq<char>>| UpdateEffectView::Unverify(guild_id, r[0]),
        ),
{
    lemma_leaver_effects_one_per_leaver(guild_id, members, records);
    lemma_list_text_fold(uuids_of(members));
    assert(uuids_of(members) =~= members.map_values(|m: Seq<Seq<char>>| m[1]));
}

/// With the stored member list read, the announcements begin with the
/// first member who is new against it (asking for that member's name by
/// UUID, nothing done yet); with no one new, the guild's work ends at once.
pub proof fn lemma_announcements_start_with_first_new_member(
    s: UpdateStateView,
    members: Seq<Seq<Seq<char>>>,
    records: Seq<Seq<Seq<char>>>,
    channel: Seq<char>,
    stored: Option<Seq<char>>,
)
    requires
        0 <= s.index < s.guild_ids.len(),
        s.stage == UpdateStageView::StoredMembers(members, records, channel),
    ensures
        ({
            let list = match stored {
                Some(t) => t,
                None => Seq::empty(),
            };
            let joined = new_members_spec(list, members);
            let (s2, out) = update_step_spec(s, UpdateEventView::Config(stored));
            &&& joined.len() > 0 ==> out.effects.len() == 0 && out.query == Some(
                UpdateQueryView::McName(joined[0][1]),
            ) && s2.stage == UpdateStageView::Announce(members, records, channel, joined, 0)
            &&& joined.len() == 0 ==> out.effects == finish_guild(
                s.guild_ids[s.index],
                members,
                records,
            )
        }),
{
    let list = match stored {
        Some(t) => t,
        None => Seq::empty(),
    };
    let g = s.guild_ids[s.index];
    assert(Seq::<UpdateEffectView>::empty() + finish_guild(g, members, records) =~= finish_guild(
        g,
        members,
        records,
    ));
}

/// Each new member is announced in the notification channel, as
/// "**name** has joined the guild!", where the lookup of their UUID found
/// a name, and skipped where it found none; then the next new member's
/// name is asked for, or, after the last one, the guild's work ends.
pub proof fn lemma_announcement_of_each_new_member(
    s: UpdateStateView,
    members: Seq<Seq<Seq<char>>>,
    records: Seq<Seq<Seq<char>>>,
    channel: Seq<char>,
    joined: Seq<Seq<Seq<char>>>,
    k: int,
    name: Option<Seq<char>>,
)
    requires
        0 <= s.index < s.guild_ids.len(),
        0 <= k < joined.len(),
        s.stage == UpdateStageView::Announce(members, records, channel, joined, k),
    ensures
        ({
            let said: Seq<UpdateEffectView> = match name {
                Some(n) => seq![
                    UpdateEffectView::Notify(
                        match parse_u64_spec(channel) {
                            Some(c) => c,
                            None => 0,
                        },
                        "**"@ + n + "** has joined the guild!"@,
                    ),
                ],
                None => Seq::empty(),
            };
            let (s2, out) = update_step_spec(s, UpdateEventView::McName(name));
            &&& k + 1 < joined.len() ==> out.effects == said && out.query == Some(
                UpdateQueryView::McName(joined[k + 1][1]),
            ) && s2.stage == UpdateStageView::Announce(members, records, channel, joined, k + 1)
            &&& k + 1 == joined.len() ==> out.effects == said + finish_guild(
                s.guild_ids[s.index],
                members,
                records,
            )
        }),
{
}

} // verus!
