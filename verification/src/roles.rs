//! Role reconciliation: computing the add/remove calls that converge a
//! guild's granted roles to the current verification state. The incremental
//! mode reacts to one membership flip; the bulk mode diffs a whole guild
//! against its live roster. Both only plan the calls; the application issues
//! them.

use vstd::prelude::*;
use crate::store::{ServerRecord, Store, VerificationRecord, spec_has_server, spec_server_index};
use crate::text::str_eq;
use crate::verification::VerifyResult;

verus! {

/// One role-mutation call to issue: grant or revoke one role of one user in
/// one guild.
#[derive(Clone, Copy, Debug, PartialEq, Eq, Structural)]
pub struct RoleAction {
    pub guild_id: u64,
    pub user_id: u64,
    pub role_id: u64,
    pub grant: bool,
}

/// Failures collected while applying a plan; per-pair failures never abort
/// the batch.
#[derive(Debug)]
pub struct UpdateRolesResult {
    pub role_errors: Vec<String>,
}

/// One member of a guild's live roster: the user and the roles the guild
/// currently grants them.
pub struct GuildMember {
    pub user_id: u64,
    pub roles: Vec<u64>,
}

/// Abstract value of a roster member.
pub struct RosterMemberV {
    pub user_id: u64,
    pub roles: Set<u64>,
}

impl DeepView for GuildMember {
    type V = RosterMemberV;

    open spec fn deep_view(&self) -> RosterMemberV {
        RosterMemberV { user_id: self.user_id, roles: self.roles@.to_set() }
    }
}

/// The user holds a verification of this channel that is fresh within the
/// bulk-sync window (3 days).
pub open spec fn spec_fresh_verified(
    users: Seq<VerificationRecord>,
    chan: Seq<char>,
    user: u64,
    now: int,
) -> bool {
    exists|i: int|
        0 <= i < users.len() && {
            let r = #[trigger] users[i];
            &&& r.discord_id == user
            &&& r.yt_channel_id@ == chan
            &&& r.last_verified matches Some(t) && now - t < 259200
        }
}

/// The calls one (role, member) pair needs: add when verified without the
/// role, remove when unverified with it, nothing when converged.
pub open spec fn spec_member_actions(
    users: Seq<VerificationRecord>,
    guild: u64,
    role_id: u64,
    chan: Seq<char>,
    m: RosterMemberV,
    now: int,
) -> Seq<RoleAction> {
    let verified = spec_fresh_verified(users, chan, m.user_id, now);
    let has_role = m.roles.contains(role_id);
    if verified && !has_role {
        seq![RoleAction { guild_id: guild, user_id: m.user_id, role_id: role_id, grant: true }]
    } else if !verified && has_role {
        seq![RoleAction { guild_id: guild, user_id: m.user_id, role_id: role_id, grant: false }]
    } else {
        Seq::empty()
    }
}

/// The calls one role needs over a roster, in roster order.
pub open spec fn spec_sync_role(
    users: Seq<VerificationRecord>,
    guild: u64,
    role_id: u64,
    chan: Seq<char>,
    roster: Seq<RosterMemberV>,
    now: int,
) -> Seq<RoleAction>
    decreases roster.len(),
{
    if roster.len() == 0 {
        Seq::empty()
    } else {
        spec_sync_role(users, guild, role_id, chan, roster.drop_last(), now)
            + spec_member_actions(users, guild, role_id, chan, roster.last(), now)
    }
}

/// The calls a whole role map needs over a roster, in map order.
pub open spec fn spec_sync_plan(
    users: Seq<VerificationRecord>,
    guild: u64,
    roles: Seq<(u64, Seq<char>)>,
    roster: Seq<RosterMemberV>,
    now: int,
) -> Seq<RoleAction>
    decreases roles.len(),
{
    if roles.len() == 0 {
        Seq::empty()
    } else {
        spec_sync_plan(users, guild, roles.drop_last(), roster, now) + spec_sync_role(
            users,
            guild,
            roles.last().0,
            roles.last().1,
            roster,
            now,
        )
    }
}

/// Errors of a bulk sync.
#[derive(Clone, Copy, Debug, PartialEq, Eq, Structural)]
pub enum SyncError {
    ServerNotConfigured,
}

fn fresh_verified(users: &Vec<VerificationRecord>, chan: &str, user: u64, now: i64) -> (r: bool)
    requires
        forall|i: int| 0 <= i < users@.len() ==> (#[trigger] users@[i]).wf(),
        now >= 0,
    ensures
        r == spec_fresh_verified(users@, chan@, user, now as int),
{
    let len = users.len();
    let mut i: usize = 0;
    while i < len
        invariant
            i <= len,
            len == users@.len(),
            now >= 0,
            forall|k: int| 0 <= k < users@.len() ==> (#[trigger] users@[k]).wf(),
            forall|k: int|
                0 <= k < i ==> !{
                    let r = #[trigger] users@[k];
                    &&& r.discord_id == user
                    &&& r.yt_channel_id@ == chan@
                    &&& r.last_verified matches Some(t) && now - t < 259200
                },
        decreases len - i,
    {
        let rec = &users[i];
        let fresh = match rec.last_verified {
            Some(t) => now - t < 259200,
            None => false,
        };
        if rec.discord_id == user && fresh && str_eq(rec.yt_channel_id.as_str(), chan) {
            return true;
        }
        i = i + 1;
    }
    false
}

/// Compute the full add/remove plan that converges one guild's roster to the
/// verification state: for every mapped role and every roster member, a call
/// is planned exactly when the member's freshly-verified state disagrees with
/// the role they hold.
pub fn sync_roles_plan(store: &Store, guild_id: u64, roster: &Vec<GuildMember>, now: i64) -> (r:
    Result<Vec<RoleAction>, SyncError>)
    requires
        store.wf(),
        now >= 0,
    ensures
        r is Err <==> !spec_has_server(store.servers@, guild_id),
        r matches Ok(plan) ==> plan@ == spec_sync_plan(
            store.users@,
            guild_id,
            store.servers@[spec_server_index(store.servers@, guild_id)].roles.deep_view(),
            roster.deep_view(),
            now as int,
        ),
{
    let si = match store.find_server(guild_id) {
        Some(i) => i,
        None => {
            return Err(SyncError::ServerNotConfigured);
        },
    };
    proof {
        store.lemma_server_index_unique(guild_id, si as int);
    }
    let ghost roles_v = store.servers@[si as int].roles.deep_view();
    let ghost roster_v = roster.deep_view();
    let mut plan: Vec<RoleAction> = Vec::new();
    let rlen = store.servers[si].roles.len();
    let mut j: usize = 0;
    while j < rlen
        invariant
            j <= rlen,
            si < store.servers@.len(),
            rlen == store.servers@[si as int].roles@.len(),
            store.wf(),
            now >= 0,
            roles_v == store.servers@[si as int].roles.deep_view(),
            roster_v == roster.deep_view(),
            roster_v.len() == roster@.len(),
            plan@ == spec_sync_plan(
                store.users@,
                guild_id,
                roles_v.take(j as int),
                roster_v,
                now as int,
            ),
        decreases rlen - j,
    {
        proof {
            assert(roles_v.take(j + 1).drop_last() =~= roles_v.take(j as int));
            assert(roles_v.take(j + 1).last() == roles_v[j as int]);
        }
        let role_id = store.servers[si].roles[j].0;
        let ghost chan_v = roles_v[j as int].1;
        let mlen = roster.len();
        let mut k: usize = 0;
        while k < mlen
            invariant
                k <= mlen,
                j < rlen,
                si < store.servers@.len(),
                rlen == store.servers@[si as int].roles@.len(),
                mlen == roster@.len(),
                store.wf(),
                now >= 0,
                roles_v == store.servers@[si as int].roles.deep_view(),
                roster_v == roster.deep_view(),
                role_id == roles_v[j as int].0,
                chan_v == roles_v[j as int].1,
                plan@ == spec_sync_plan(
                    store.users@,
                    guild_id,
                    roles_v.take(j as int),
                    roster_v,
                    now as int,
                ) + spec_sync_role(
                    store.users@,
                    guild_id,
                    role_id,
                    chan_v,
                    roster_v.take(k as int),
                    now as int,
                ),
            decreases mlen - k,
        {
            proof {
                assert(roster_v.take(k + 1).drop_last() =~= roster_v.take(k as int));
                assert(roster_v.take(k + 1).last() == roster_v[k as int]);
            }
            let member = &roster[k];
            let verified = fresh_verified(
                &store.users,
                store.servers[si].roles[j].1.as_str(),
                member.user_id,
                now,
            );
            let mut has_role = false;
            let nroles = member.roles.len();
            let mut t: usize = 0;
            while t < nroles
                invariant
                    t <= nroles,
                    nroles == member.roles@.len(),
                    has_role == exists|u: int| 0 <= u < t && member.roles@[u] == role_id,
                decreases nroles - t,
            {
                if member.roles[t] == role_id {
                    has_role = true;
                }
                t = t + 1;
            }
            proof {
                assert(has_role == member.deep_view().roles.contains(role_id));
                assert(member.deep_view() == roster_v[k as int]);
            }
            let ghost plan0 = plan@;
            if verified && !has_role {
                plan.push(
                    RoleAction {
                        guild_id,
                        user_id: member.user_id,
                        role_id,
                        grant: true,
                    },
                );
            } else if !verified && has_role {
                plan.push(
                    RoleAction {
                        guild_id,
                        user_id: member.user_id,
                        role_id,
                        grant: false,
                    },
                );
            }
            proof {
                let acts = spec_member_actions(
                    store.users@,
                    guild_id,
                    role_id,
                    chan_v,
                    roster_v[k as int],
                    now as int,
                );
                assert(plan@ =~= plan0 + acts);
                assert(spec_sync_role(
                    store.users@,
                    guild_id,
                    role_id,
                    chan_v,
                    roster_v.take(k + 1),
                    now as int,
                ) == spec_sync_role(
                    store.users@,
                    guild_id,
                    role_id,
                    chan_v,
                    roster_v.take(k as int),
                    now as int,
                ) + acts);
                vstd::seq_lib::lemma_concat_associative(
                    spec_sync_plan(
                        store.users@,
                        guild_id,
                        roles_v.take(j as int),
                        roster_v,
                        now as int,
                    ),
                    spec_sync_role(
                        store.users@,
                        guild_id,
                        role_id,
                        chan_v,
                        roster_v.take(k as int),
                        now as int,
                    ),
                    acts,
                );
            }
            k = k + 1;
        }
        proof {
            assert(roster_v.take(mlen as int) =~= roster_v);
        }
        j = j + 1;
    }
    proof {
        assert(roles_v.take(rlen as int) =~= roles_v);
    }
    Ok(plan)
}

proof fn lemma_concat_contains<A>(a: Seq<A>, b: Seq<A>, x: A)
    ensures
        (a + b).contains(x) <==> a.contains(x) || b.contains(x),
{
    if a.contains(x) {
        let i = choose|i: int| 0 <= i < a.len() && a[i] == x;
        assert((a + b)[i] == x);
    }
    if b.contains(x) {
        let i = choose|i: int| 0 <= i < b.len() && b[i] == x;
        assert((a + b)[a.len() + i] == x);
    }
    if (a + b).contains(x) {
        let i = choose|i: int| 0 <= i < (a + b).len() && (a + b)[i] == x;
        if i < a.len() {
            assert(a[i] == x);
        } else {
            assert(b[i - a.len()] == x);
        }
    }
}

/// A call stands in a role's plan exactly when some roster member needs it.
proof fn lemma_sync_role_contains(
    users: Seq<VerificationRecord>,
    guild: u64,
    role_id: u64,
    chan: Seq<char>,
    roster: Seq<RosterMemberV>,
    now: int,
    a: RoleAction,
)
    ensures
        spec_sync_role(users, guild, role_id, chan, roster, now).contains(a) <==> exists|k: int|
            0 <= k < roster.len() && spec_member_actions(
                users,
                guild,
                role_id,
                chan,
                #[trigger] roster[k],
                now,
            ).contains(a),
    decreases roster.len(),
{
    if roster.len() == 0 {
    } else {
        let rest = roster.drop_last();
        lemma_sync_role_contains(users, guild, role_id, chan, rest, now, a);
        lemma_concat_contains(
            spec_sync_role(users, guild, role_id, chan, rest, now),
            spec_member_actions(users, guild, role_id, chan, roster.last(), now),
            a,
        );
        if exists|k: int|
            0 <= k < rest.len() && spec_member_actions(
                users,
                guild,
                role_id,
                chan,
                #[trigger] rest[k],
                now,
            ).contains(a) {
            let k = choose|k: int|
                0 <= k < rest.len() && spec_member_actions(
                    users,
                    guild,
                    role_id,
                    chan,
                    #[trigger] rest[k],
                    now,
                ).contains(a);
            assert(roster[k] == rest[k]);
        }
        if spec_member_actions(users, guild, role_id, chan, roster.last(), now).contains(a) {
            assert(roster[roster.len() - 1] == roster.last());
        }
        if exists|k: int|
            0 <= k < roster.len() && spec_member_actions(
                users,
                guild,
                role_id,
                chan,
                #[trigger] roster[k],
                now,
            ).contains(a) {
            let k = choose|k: int|
                0 <= k < roster.len() && spec_member_actions(
                    users,
                    guild,
                    role_id,
                    chan,
                    #[trigger] roster[k],
                    now,
                ).contains(a);
            if k < roster.len() - 1 {
                assert(rest[k] == roster[k]);
            }
        }
    }
}

/// A call stands in the full plan exactly when some (role, member) pair
/// needs it.
proof fn lemma_sync_plan_contains(
    users: Seq<VerificationRecord>,
    guild: u64,
    roles: Seq<(u64, Seq<char>)>,
    roster: Seq<RosterMemberV>,
    now: int,
    a: RoleAction,
)
    ensures
        spec_sync_plan(users, guild, roles, roster, now).contains(a) <==> exists|j: int, k: int|
            0 <= j < roles.len() && 0 <= k < roster.len() && spec_member_actions(
                users,
                guild,
                (#[trigger] roles[j]).0,
                roles[j].1,
                #[trigger] roster[k],
                now,
            ).contains(a),
    decreases roles.len(),
{
    if roles.len() == 0 {
    } else {
        let rest = roles.drop_last();
        lemma_sync_plan_contains(users, guild, rest, roster, now, a);
        lemma_sync_role_contains(users, guild, roles.last().0, roles.last().1, roster, now, a);
        lemma_concat_contains(
            spec_sync_plan(users, guild, rest, roster, now),
            spec_sync_role(users, guild, roles.last().0, roles.last().1, roster, now),
            a,
        );
        if exists|j: int, k: int|
            0 <= j < rest.len() && 0 <= k < roster.len() && spec_member_actions(
                users,
                guild,
                (#[trigger] rest[j]).0,
                rest[j].1,
                #[trigger] roster[k],
                now,
            ).contains(a) {
            let (j, k) = choose|j: int, k: int|
                0 <= j < rest.len() && 0 <= k < roster.len() && spec_member_actions(
                    users,
                    guild,
                    (#[trigger] rest[j]).0,
                    rest[j].1,
                    #[trigger] roster[k],
                    now,
                ).contains(a);
            assert(roles[j] == rest[j]);
        }
        if exists|k: int|
            0 <= k < roster.len() && spec_member_actions(
                users,
                guild,
                roles.last().0,
                roles.last().1,
                #[trigger] roster[k],
                now,
            ).contains(a) {
            let k = choose|k: int|
                0 <= k < roster.len() && spec_member_actions(
                    users,
                    guild,
                    roles.last().0,
                    roles.last().1,
                    #[trigger] roster[k],
                    now,
                ).contains(a);
            assert(roles[roles.len() - 1] == roles.last());
        }
        if exists|j: int, k: int|
            0 <= j < roles.len() && 0 <= k < roster.len() && spec_member_actions(
                users,
                guild,
                (#[trigger] roles[j]).0,
                roles[j].1,
                #[trigger] roster[k],
                now,
            ).contains(a) {
            let (j, k) = choose|j: int, k: int|
                0 <= j < roles.len() && 0 <= k < roster.len() && spec_member_actions(
                    users,
                    guild,
                    (#[trigger] roles[j]).0,
                    roles[j].1,
                    #[trigger] roster[k],
                    now,
                ).contains(a);
            if j < roles.len() - 1 {
                assert(rest[j] == roles[j]);
            }
        }
    }
}

/// The plan grants this role to this user.
pub open spec fn spec_plan_grants(plan: Seq<RoleAction>, user: u64, role: u64) -> bool {
    exists|i: int|
        0 <= i < plan.len() && {
            let a = #[trigger] plan[i];
            a.user_id == user && a.role_id == role && a.grant
        }
}

/// The plan revokes this role from this user.
pub open spec fn spec_plan_revokes(plan: Seq<RoleAction>, user: u64, role: u64) -> bool {
    exists|i: int|
        0 <= i < plan.len() && {
            let a = #[trigger] plan[i];
            a.user_id == user && a.role_id == role && !a.grant
        }
}

/// A roster member after the plan's calls were issued: a role is held when
/// the plan granted it, dropped when the plan revoked it, and otherwise
/// unchanged.
pub open spec fn spec_apply_to_member(m: RosterMemberV, plan: Seq<RoleAction>) -> RosterMemberV {
    RosterMemberV {
        user_id: m.user_id,
        roles: Set::new(
            |r: u64|
                if spec_plan_grants(plan, m.user_id, r) {
                    true
                } else if spec_plan_revokes(plan, m.user_id, r) {
                    false
                } else {
                    m.roles.contains(r)
                },
        ),
    }
}

/// The whole roster after the plan's calls were issued.
pub open spec fn spec_apply_plan(roster: Seq<RosterMemberV>, plan: Seq<RoleAction>) -> Seq<
    RosterMemberV,
> {
    roster.map_values(|m: RosterMemberV| spec_apply_to_member(m, plan))
}

proof fn lemma_sync_role_empty(
    users: Seq<VerificationRecord>,
    guild: u64,
    role_id: u64,
    chan: Seq<char>,
    roster: Seq<RosterMemberV>,
    now: int,
)
    requires
        forall|k: int|
            0 <= k < roster.len() ==> spec_member_actions(
                users,
                guild,
                role_id,
                chan,
                #[trigger] roster[k],
                now,
            ) == Seq::<RoleAction>::empty(),
    ensures
        spec_sync_role(users, guild, role_id, chan, roster, now) == Seq::<RoleAction>::empty(),
    decreases roster.len(),
{
    if roster.len() == 0 {
    } else {
        let rest = roster.drop_last();
        assert forall|k: int| 0 <= k < rest.len() implies spec_member_actions(
            users,
            guild,
            role_id,
            chan,
            #[trigger] rest[k],
            now,
        ) == Seq::<RoleAction>::empty() by {
            assert(rest[k] == roster[k]);
        }
        lemma_sync_role_empty(users, guild, role_id, chan, rest, now);
        assert(roster[roster.len() - 1] == roster.last());
        assert(spec_sync_role(users, guild, role_id, chan, roster, now) =~= Seq::<
            RoleAction,
        >::empty());
    }
}

proof fn lemma_sync_plan_empty(
    users: Seq<VerificationRecord>,
    guild: u64,
    roles: Seq<(u64, Seq<char>)>,
    roster: Seq<RosterMemberV>,
    now: int,
)
    requires
        forall|j: int, k: int|
            0 <= j < roles.len() && 0 <= k < roster.len() ==> spec_member_actions(
                users,
                guild,
                (#[trigger] roles[j]).0,
                roles[j].1,
                #[trigger] roster[k],
                now,
            ) == Seq::<RoleAction>::empty(),
    ensures
        spec_sync_plan(users, guild, roles, roster, now) == Seq::<RoleAction>::empty(),
    decreases roles.len(),
{
    if roles.len() == 0 {
    } else {
        let rest = roles.drop_last();
        assert forall|j: int, k: int|
            0 <= j < rest.len() && 0 <= k < roster.len() implies spec_member_actions(
            users,
            guild,
            (#[trigger] rest[j]).0,
            rest[j].1,
            #[trigger] roster[k],
            now,
        ) == Seq::<RoleAction>::empty() by {
            assert(rest[j] == roles[j]);
        }
        lemma_sync_plan_empty(users, guild, rest, roster, now);
        assert(roles[roles.len() - 1] == roles.last());
        assert forall|k: int| 0 <= k < roster.len() implies spec_member_actions(
            users,
            guild,
            roles.last().0,
            roles.last().1,
            #[trigger] roster[k],
            now,
        ) == Seq::<RoleAction>::empty() by {
        }
        lemma_sync_role_empty(users, guild, roles.last().0, roles.last().1, roster, now);
        assert(spec_sync_plan(users, guild, roles, roster, now) =~= Seq::<RoleAction>::empty());
    }
}

/// Bulk reconciliation is idempotent: once the planned calls have been
/// issued against the roster, planning again over the resulting roster and
/// the unchanged verification state yields no calls at all. Role ids must be
/// unique in the map and user ids unique in the roster, as they are in a
/// well-formed store and a real roster.
pub proof fn lemma_sync_idempotent(
    users: Seq<VerificationRecord>,
    guild: u64,
    roles: Seq<(u64, Seq<char>)>,
    roster: Seq<RosterMemberV>,
    now: int,
)
    requires
        forall|i: int, j: int|
            0 <= i < j < roles.len() ==> (#[trigger] roles[i]).0 != (#[trigger] roles[j]).0,
        forall|i: int, j: int|
            0 <= i < j < roster.len() ==> (#[trigger] roster[i]).user_id != (
            #[trigger] roster[j]).user_id,
    ensures
        spec_sync_plan(
            users,
            guild,
            roles,
            spec_apply_plan(roster, spec_sync_plan(users, guild, roles, roster, now)),
            now,
        ) == Seq::<RoleAction>::empty(),
{
    let plan = spec_sync_plan(users, guild, roles, roster, now);
    let roster2 = spec_apply_plan(roster, plan);
    assert(roster2.len() == roster.len());
    assert forall|j: int, k: int|
        0 <= j < roles.len() && 0 <= k < roster2.len() implies spec_member_actions(
        users,
        guild,
        (#[trigger] roles[j]).0,
        roles[j].1,
        #[trigger] roster2[k],
        now,
    ) == Seq::<RoleAction>::empty() by {
        let rid = roles[j].0;
        let chan = roles[j].1;
        let m = roster[k];
        let m2 = roster2[k];
        assert(m2 == spec_apply_to_member(m, plan));
        assert(m2.user_id == m.user_id);
        let verified = spec_fresh_verified(users, chan, m.user_id, now);
        let has0 = m.roles.contains(rid);
        let grant_action = RoleAction {
            guild_id: guild,
            user_id: m.user_id,
            role_id: rid,
            grant: true,
        };
        let revoke_action = RoleAction {
            guild_id: guild,
            user_id: m.user_id,
            role_id: rid,
            grant: false,
        };
        // The plan grants (rid, m) exactly when m is verified and lacks the role.
        assert(spec_plan_grants(plan, m.user_id, rid) <==> (verified && !has0)) by {
            if spec_plan_grants(plan, m.user_id, rid) {
                let i = choose|i: int|
                    0 <= i < plan.len() && {
                        let a = #[trigger] plan[i];
                        a.user_id == m.user_id && a.role_id == rid && a.grant
                    };
                let a = plan[i];
                assert(plan.contains(a));
                lemma_sync_plan_contains(users, guild, roles, roster, now, a);
                let (j2, k2) = choose|j2: int, k2: int|
                    0 <= j2 < roles.len() && 0 <= k2 < roster.len() && spec_member_actions(
                        users,
                        guild,
                        (#[trigger] roles[j2]).0,
                        roles[j2].1,
                        #[trigger] roster[k2],
                        now,
                    ).contains(a);
                let acts = spec_member_actions(
                    users,
                    guild,
                    roles[j2].0,
                    roles[j2].1,
                    roster[k2],
                    now,
                );
                let ai = choose|ai: int| 0 <= ai < acts.len() && acts[ai] == a;
                assert(a.role_id == roles[j2].0 && a.user_id == roster[k2].user_id);
                assert(roles[j2].0 == rid);
                if j2 != j {
                    if j2 < j {
                        assert(roles[j2].0 != roles[j].0);
                    } else {
                        assert(roles[j].0 != roles[j2].0);
                    }
                }
                assert(j2 == j);
                if k2 != k {
                    if k2 < k {
                        assert(roster[k2].user_id != roster[k].user_id);
                    } else {
                        assert(roster[k].user_id != roster[k2].user_id);
                    }
                }
                assert(k2 == k);
                assert(a.grant);
                assert(verified && !has0);
            }
            if verified && !has0 {
                let acts = spec_member_actions(users, guild, rid, chan, m, now);
                assert(acts[0] == grant_action);
                assert(acts.contains(grant_action));
                lemma_sync_plan_contains(users, guild, roles, roster, now, grant_action);
                assert(plan.contains(grant_action));
                let i = choose|i: int| 0 <= i < plan.len() && plan[i] == grant_action;
                assert(spec_plan_grants(plan, m.user_id, rid));
            }
        }
        // The plan revokes (rid, m) exactly when m is unverified and holds
        // the role.
        assert(spec_plan_revokes(plan, m.user_id, rid) <==> (!verified && has0)) by {
            if spec_plan_revokes(plan, m.user_id, rid) {
                let i = choose|i: int|
                    0 <= i < plan.len() && {
                        let a = #[trigger] plan[i];
                        a.user_id == m.user_id && a.role_id == rid && !a.grant
                    };
                let a = plan[i];
                assert(plan.contains(a));
                lemma_sync_plan_contains(users, guild, roles, roster, now, a);
                let (j2, k2) = choose|j2: int, k2: int|
                    0 <= j2 < roles.len() && 0 <= k2 < roster.len() && spec_member_actions(
                        users,
                        guild,
                        (#[trigger] roles[j2]).0,
                        roles[j2].1,
                        #[trigger] roster[k2],
                        now,
                    ).contains(a);
                let acts = spec_member_actions(
                    users,
                    guild,
                    roles[j2].0,
                    roles[j2].1,
                    roster[k2],
                    now,
                );
                let ai = choose|ai: int| 0 <= ai < acts.len() && acts[ai] == a;
                assert(roles[j2].0 == rid);
                if j2 != j {
                    if j2 < j {
                        assert(roles[j2].0 != roles[j].0);
                    } else {
                        assert(roles[j].0 != roles[j2].0);
                    }
                }
                assert(j2 == j);
                if k2 != k {
                    if k2 < k {
                        assert(roster[k2].user_id != roster[k].user_id);
                    } else {
                        assert(roster[k].user_id != roster[k2].user_id);
                    }
                }
                assert(k2 == k);
                assert(!verified && has0);
            }
            if !verified && has0 {
                let acts = spec_member_actions(users, guild, rid, chan, m, now);
                assert(acts[0] == revoke_action);
                assert(acts.contains(revoke_action));
                lemma_sync_plan_contains(users, guild, roles, roster, now, revoke_action);
                assert(plan.contains(revoke_action));
                let i = choose|i: int| 0 <= i < plan.len() && plan[i] == revoke_action;
                assert(spec_plan_revokes(plan, m.user_id, rid));
            }
        }
        assert(m2.roles.contains(rid) == verified);
    }
    lemma_sync_plan_empty(users, guild, roles, roster2, now);
}

/// The role entries of one guild's map that are tied to the given channel,
/// paired with the guild's id, in map order.
pub open spec fn spec_channel_roles_in(
    roles: Seq<(u64, String)>,
    guild: u64,
    chan: Seq<char>,
) -> Seq<(u64, u64)>
    decreases roles.len(),
{
    if roles.len() == 0 {
        Seq::empty()
    } else {
        spec_channel_roles_in(roles.drop_last(), guild, chan) + (if roles.last().1@ == chan {
            seq![(guild, roles.last().0)]
        } else {
            Seq::empty()
        })
    }
}

/// Every (guild, role) pair tied to the given channel, across all guilds, in
/// store order.
pub open spec fn spec_roles_for_channel(servers: Seq<ServerRecord>, chan: Seq<char>) -> Seq<
    (u64, u64),
>
    decreases servers.len(),
{
    if servers.len() == 0 {
        Seq::empty()
    } else {
        spec_roles_for_channel(servers.drop_last(), chan) + spec_channel_roles_in(
            servers.last().roles@,
            servers.last().server_id,
            chan,
        )
    }
}

impl VerifyResult {
    /// The calls an incremental reconciliation issues for this pass: nothing
    /// when the membership flag did not flip; otherwise one grant (on gain)
    /// or revoke (on loss) for every role of every guild tied to the
    /// binding's channel.
    pub fn update_roles(&self, store: &Store) -> (r: Option<Vec<RoleAction>>)
        ensures
            r is Some <==> (self.was_member != self.is_member),
            r matches Some(v) ==> v@ == spec_roles_for_channel(
                store.servers@,
                self.yt_channel_id@,
            ).map_values(
                |p: (u64, u64)|
                    RoleAction {
                        guild_id: p.0,
                        user_id: self.discord_id,
                        role_id: p.1,
                        grant: self.is_member,
                    },
            ),
    {
        let add = self.became_member();
        let rem = self.became_non_member();
        if !(add || rem) {
            return None;
        }
        let ghost to_action = |p: (u64, u64)|
            RoleAction {
                guild_id: p.0,
                user_id: self.discord_id,
                role_id: p.1,
                grant: self.is_member,
            };
        let mut out: Vec<RoleAction> = Vec::new();
        let slen = store.servers.len();
        let mut i: usize = 0;
        while i < slen
            invariant
                i <= slen,
                slen == store.servers@.len(),
                self.is_member == !self.was_member,
                to_action == (|p: (u64, u64)|
                    RoleAction {
                        guild_id: p.0,
                        user_id: self.discord_id,
                        role_id: p.1,
                        grant: self.is_member,
                    }),
                out@ == spec_roles_for_channel(
                    store.servers@.take(i as int),
                    self.yt_channel_id@,
                ).map_values(to_action),
            decreases slen - i,
        {
            proof {
                assert(store.servers@.take(i + 1).drop_last() =~= store.servers@.take(i as int));
                assert(store.servers@.take(i + 1).last() == store.servers@[i as int]);
            }
            let server = &store.servers[i];
            let guild = server.server_id;
            let rlen = server.roles.len();
            let mut j: usize = 0;
            while j < rlen
                invariant
                    j <= rlen,
                    i < slen,
                    slen == store.servers@.len(),
                    rlen == store.servers@[i as int].roles@.len(),
                    server == &store.servers@[i as int],
                    guild == server.server_id,
                    self.is_member == !self.was_member,
                    to_action == (|p: (u64, u64)|
                        RoleAction {
                            guild_id: p.0,
                            user_id: self.discord_id,
                            role_id: p.1,
                            grant: self.is_member,
                        }),
                    out@ == (spec_roles_for_channel(
                        store.servers@.take(i as int),
                        self.yt_channel_id@,
                    ) + spec_channel_roles_in(
                        server.roles@.take(j as int),
                        guild,
                        self.yt_channel_id@,
                    )).map_values(to_action),
                decreases rlen - j,
            {
                proof {
                    assert(server.roles@.take(j + 1).drop_last() =~= server.roles@.take(j as int));
                    assert(server.roles@.take(j + 1).last() == server.roles@[j as int]);
                }
                let ghost out0 = out@;
                if str_eq(server.roles[j].1.as_str(), self.yt_channel_id.as_str()) {
                    out.push(
                        RoleAction {
                            guild_id: guild,
                            user_id: self.discord_id,
                            role_id: server.roles[j].0,
                            grant: self.is_member,
                        },
                    );
                }
                proof {
                    assert(out@ =~= (spec_roles_for_channel(
                        store.servers@.take(i as int),
                        self.yt_channel_id@,
                    ) + spec_channel_roles_in(
                        server.roles@.take(j + 1),
                        guild,
                        self.yt_channel_id@,
                    )).map_values(to_action));
                }
                j = j + 1;
            }
            proof {
                assert(server.roles@.take(rlen as int) =~= server.roles@);
            }
            i = i + 1;
        }
        proof {
            assert(store.servers@.take(slen as int) =~= store.servers@);
        }
        Some(out)
    }
}

} // verus!
