//! What verifying and unverifying a guild member consists of: the role
//! changes, the nickname, the name database change, and the answer.
use vstd::prelude::*;

use crate::guildconfig::{
    config_role_id, removed_role_ids, role_id_or_default, verified_reply, verified_reply_spec,
};
use crate::structs::{DcUsername, McUsername};
use crate::text::split_spec;

verus! {

broadcast use vstd::string::group_string_axioms;

/// One change to a guild member or to the guild's name database.
pub enum MemberAction {
    AddRole(u64),
    RemoveRole(u64),
    SetNickname(String),
    /// Record this Discord user with this Minecraft name and UUID.
    InsertName { dc_user: String, mc_user: String, mc_uuid: String },
    /// Take every link that mentions this user out of the database.
    RemoveName { username: String },
}

pub enum MemberActionView {
    AddRole(u64),
    RemoveRole(u64),
    SetNickname(Seq<char>),
    InsertName(Seq<char>, Seq<char>, Seq<char>),
    RemoveName(Seq<char>),
}

impl DeepView for MemberAction {
    type V = MemberActionView;

    open spec fn deep_view(&self) -> MemberActionView {
        match self {
            MemberAction::AddRole(r) => MemberActionView::AddRole(*r),
            MemberAction::RemoveRole(r) => MemberActionView::RemoveRole(*r),
            MemberAction::SetNickname(n) => MemberActionView::SetNickname(n@),
            MemberAction::InsertName { dc_user, mc_user, mc_uuid } => MemberActionView::InsertName(
                dc_user@,
                mc_user@,
                mc_uuid@,
            ),
            MemberAction::RemoveName { username } => MemberActionView::RemoveName(username@),
        }
    }
}

/// The answer when the member is not in the guild.
pub open spec fn member_missing_spec() -> Seq<char> {
    "Couldn't find target member"@
}

/// The answer to an unverification.
pub open spec fn unverified_reply_spec() -> Seq<char> {
    "User has been unverified"@
}

/// The action that a role setting calls for, where the setting exists.
pub open spec fn role_action(setting: Option<Seq<char>>, add: bool) -> Seq<MemberActionView> {
    match setting {
        Some(v) => if add {
            seq![MemberActionView::AddRole(role_id_or_default(v))]
        } else {
            seq![MemberActionView::RemoveRole(role_id_or_default(v))]
        },
        None => Seq::empty(),
    }
}

/// Verification: the verified role is given, the veteran role taken away,
/// the nickname set to the Minecraft name, and the user recorded with the
/// Minecraft name and UUID.
pub open spec fn verify_spec(
    dc_pingid: Seq<char>,
    mc_name: Seq<char>,
    mc_uuid: Seq<char>,
    verified_role: Option<Seq<char>>,
    veteran_role: Option<Seq<char>>,
) -> Seq<MemberActionView> {
    role_action(verified_role, true) + role_action(veteran_role, false) + seq![
        MemberActionView::SetNickname(mc_name),
        MemberActionView::InsertName(dc_pingid, mc_name, mc_uuid),
    ]
}

/// Unverification: the verified role and every listed removable role are
/// taken away, the veteran role given, and the user's links removed.
pub open spec fn unverify_spec(
    dc_pingid: Seq<char>,
    verified_role: Option<Seq<char>>,
    removed_roles: Option<Seq<char>>,
    veteran_role: Option<Seq<char>>,
) -> Seq<MemberActionView> {
    role_action(verified_role, false) + match removed_roles {
        Some(list) => split_spec(list, ' ').map_values(
            |p: Seq<char>| MemberActionView::RemoveRole(role_id_or_default(p)),
        ),
        None => Seq::empty(),
    } + role_action(veteran_role, true) + seq![MemberActionView::RemoveName(dc_pingid)]
}

pub open spec fn opt_view(s: Option<String>) -> Option<Seq<char>> {
    match s {
        Some(x) => Some(x@),
        None => None,
    }
}

pub open spec fn result_view(r: Result<String, String>) -> Result<Seq<char>, Seq<char>> {
    match r {
        Ok(x) => Ok(x@),
        Err(x) => Err(x@),
    }
}

fn push_role_action(actions: &mut Vec<MemberAction>, setting: &Option<String>, add: bool)
    ensures
        final(actions).deep_view() == old(actions).deep_view() + role_action(opt_view(*setting), add),
{
    let ghost before = actions.deep_view();
    match setting {
        Some(v) => {
            let id = config_role_id(v.as_str());
            if add {
                actions.push(MemberAction::AddRole(id));
            } else {
                actions.push(MemberAction::RemoveRole(id));
            }
            assert(actions.deep_view() =~= before + role_action(opt_view(*setting), add));
        },
        None => {
            assert(actions.deep_view() =~= before + role_action(opt_view(*setting), add));
        },
    }
}

/// Verifying a member, from whether the member is in the guild and the
/// guild's role settings: the actions in order, and the answer.
pub fn verify(
    member_found: bool,
    dc_user: &DcUsername,
    mc_user: &McUsername,
    verified_role: Option<String>,
    veteran_role: Option<String>,
) -> (r: (Vec<MemberAction>, Result<String, String>))
    ensures
        !member_found ==> r.0.deep_view() == Seq::<MemberActionView>::empty() && result_view(r.1)
            == Err::<Seq<char>, Seq<char>>(member_missing_spec()),
        member_found ==> r.0.deep_view() == verify_spec(
            dc_user.pingid@,
            mc_user.name@,
            mc_user.uuid@,
            opt_view(verified_role),
            opt_view(veteran_role),
        ) && result_view(r.1) == Ok::<Seq<char>, Seq<char>>(
            verified_reply_spec(dc_user.pingid@, mc_user.name@),
        ),
{
    let mut actions: Vec<MemberAction> = Vec::new();
    assert(actions.deep_view() =~= Seq::<MemberActionView>::empty());
    if !member_found {
        return (actions, Err("Couldn't find target member".to_string()));
    }
    push_role_action(&mut actions, &verified_role, true);
    push_role_action(&mut actions, &veteran_role, false);
    let ghost before = actions.deep_view();
    actions.push(MemberAction::SetNickname(mc_user.name.clone()));
    actions.push(
        MemberAction::InsertName {
            dc_user: dc_user.pingid.clone(),
            mc_user: mc_user.name.clone(),
            mc_uuid: mc_user.uuid.clone(),
        },
    );
    assert(actions.deep_view() =~= before + seq![
        MemberActionView::SetNickname(mc_user.name@),
        MemberActionView::InsertName(dc_user.pingid@, mc_user.name@, mc_user.uuid@),
    ]);
    let reply = verified_reply(dc_user.pingid.as_str(), mc_user.name.as_str());
    (actions, Ok(reply))
}

/// Unverifying a member, from whether the member is in the guild and the
/// guild's role settings: the actions in order, and the answer.
pub fn unverify(
    member_found: bool,
    dc_user: &DcUsername,
    verified_role: Option<String>,
    removed_roles: Option<String>,
    veteran_role: Option<String>,
) -> (r: (Vec<MemberAction>, Result<String, String>))
    ensures
        !member_found ==> r.0.deep_view() == Seq::<MemberActionView>::empty() && result_view(r.1)
            == Err::<Seq<char>, Seq<char>>(member_missing_spec()),
        member_found ==> r.0.deep_view() == unverify_spec(
            dc_user.pingid@,
            opt_view(verified_role),
            opt_view(removed_roles),
            opt_view(veteran_role),
        ) && result_view(r.1) == Ok::<Seq<char>, Seq<char>>(unverified_reply_spec()),
{
    let mut actions: Vec<MemberAction> = Vec::new();
    assert(actions.deep_view() =~= Seq::<MemberActionView>::empty());
    if !member_found {
        return (actions, Err("Couldn't find target member".to_string()));
    }
    push_role_action(&mut actions, &verified_role, false);
    let ghost after_verified = actions.deep_view();
    match &removed_roles {
        Some(list) => {
            let ids = removed_role_ids(list.as_str());
            let ghost target = split_spec(list@, ' ').map_values(
                |p: Seq<char>| MemberActionView::RemoveRole(role_id_or_default(p)),
            );
            let mut i: usize = 0;
            while i < ids.len()
                invariant
                    i <= ids@.len(),
                    ids@ == split_spec(list@, ' ').map_values(
                        |p: Seq<char>| role_id_or_default(p),
                    ),
                    target.len() == ids@.len(),
                    target == split_spec(list@, ' ').map_values(
                        |p: Seq<char>| MemberActionView::RemoveRole(role_id_or_default(p)),
                    ),
                    actions.deep_view() =~= after_verified + target.take(i as int),
                decreases ids.len() - i,
            {
                let ghost before = actions.deep_view();
                assert(target[i as int] == MemberActionView::RemoveRole(ids@[i as int]));
                actions.push(MemberAction::RemoveRole(ids[i]));
                assert(target.take(i + 1) =~= target.take(i as int).push(target[i as int]));
                assert(actions.deep_view() =~= before.push(MemberActionView::RemoveRole(ids@[i as int])));
                i = i + 1;
            }
            assert(target.take(ids.len() as int) =~= target);
        },
        None => {},
    }
    push_role_action(&mut actions, &veteran_role, true);
    let ghost before = actions.deep_view();
    actions.push(MemberAction::RemoveName { username: dc_user.pingid.clone() });
    assert(actions.deep_view() =~= before.push(MemberActionView::RemoveName(dc_user.pingid@)));
    assert(actions.deep_view() =~= unverify_spec(
        dc_user.pingid@,
        opt_view(verified_role),
        opt_view(removed_roles),
        opt_view(veteran_role),
    ));
    (actions, Ok("User has been unverified".to_string()))
}

// ---------------------------------------------------------------------
// Laws
// ---------------------------------------------------------------------

/// What verifying a member who is in the guild does, action by action:
/// first the verified role is given where that setting exists (whatever
/// the veteran role setting is), then the veteran role is taken away where
/// that setting exists (whatever the verified role setting is), then the
/// nickname becomes the Minecraft name, and last the user is recorded with
/// the Minecraft name and UUID. There is no other action.
pub proof fn lemma_verify_actions(
    dc_pingid: Seq<char>,
    mc_name: Seq<char>,
    mc_uuid: Seq<char>,
    verified_role: Option<Seq<char>>,
    veteran_role: Option<Seq<char>>,
)
    ensures
        ({
            let a = verify_spec(dc_pingid, mc_name, mc_uuid, verified_role, veteran_role);
            let n: int = if verified_role is Some { 1 } else { 0 };
            let m: int = if veteran_role is Some { 1 } else { 0 };
            &&& a.len() == n + m + 2
            &&& verified_role matches Some(v) ==> a[0] == MemberActionView::AddRole(
                role_id_or_default(v),
            )
            &&& veteran_role matches Some(w) ==> a[n] == MemberActionView::RemoveRole(
                role_id_or_default(w),
            )
            &&& a[n + m] == MemberActionView::SetNickname(mc_name)
            &&& a[n + m + 1] == MemberActionView::InsertName(dc_pingid, mc_name, mc_uuid)
            &&& verified_role matches Some(v) ==> a.contains(
                MemberActionView::AddRole(role_id_or_default(v)),
            )
            &&& veteran_role matches Some(w) ==> a.contains(
                MemberActionView::RemoveRole(role_id_or_default(w)),
            )
        }),
{
    let a = verify_spec(dc_pingid, mc_name, mc_uuid, verified_role, veteran_role);
    let n: int = if verified_role is Some { 1 } else { 0 };
    if verified_role is Some {
        assert(a[0] == a[0]);
    }
    if veteran_role is Some {
        assert(a[n] == a[n]);
    }
}

/// What unverifying a member who is in the guild does, action by action:
/// first the verified role is taken away where that setting exists, then
/// every role of the removable-roles list, in its order, then the veteran
/// role is given where that setting exists (whatever the other settings
/// are), and last the user's links are removed from the database. There is
/// no other action.
pub proof fn lemma_unverify_actions(
    dc_pingid: Seq<char>,
    verified_role: Option<Seq<char>>,
    removed_roles: Option<Seq<char>>,
    veteran_role: Option<Seq<char>>,
)
    ensures
        ({
            let a = unverify_spec(dc_pingid, verified_role, removed_roles, veteran_role);
            let n: int = if verified_role is Some { 1 } else { 0 };
            let ids: Seq<Seq<char>> = match removed_roles {
                Some(l) => split_spec(l, ' '),
                None => Seq::empty(),
            };
            let m: int = if veteran_role is Some { 1 } else { 0 };
            &&& a.len() == n + ids.len() + m + 1
            &&& verified_role matches Some(v) ==> a[0] == MemberActionView::RemoveRole(
                role_id_or_default(v),
            )
            &&& forall|j: int|
                0 <= j < ids.len() ==> a[n + j] == MemberActionView::RemoveRole(
                    role_id_or_default(#[trigger] ids[j]),
                )
            &&& veteran_role matches Some(w) ==> a[n + ids.len()] == MemberActionView::AddRole(
                role_id_or_default(w),
            )
            &&& a[n + ids.len() + m] == MemberActionView::RemoveName(dc_pingid)
            &&& veteran_role matches Some(w) ==> a.contains(
                MemberActionView::AddRole(role_id_or_default(w)),
            )
        }),
{
    let a = unverify_spec(dc_pingid, verified_role, removed_roles, veteran_role);
    let n: int = if verified_role is Some { 1 } else { 0 };
    let ids: Seq<Seq<char>> = match removed_roles {
        Some(l) => split_spec(l, ' '),
        None => Seq::empty(),
    };
    if veteran_role is Some {
        assert(a[n + ids.len()] == a[n + ids.len()]);
    }
}

} // verus!
