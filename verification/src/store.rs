//! The persisted state: one record per verification binding, and one record
//! per guild with its role-to-channel map. The store is the single source of
//! truth; every mutation below mirrors one configuration command.

use vstd::prelude::*;

verus! {

/// One verification binding: a local user, an external channel, and a slot
/// index, together with the proof location and the verification timestamps.
/// Timestamps are unix seconds.
pub struct VerificationRecord {
    pub discord_id: u64,
    pub yt_channel_id: String,
    pub yt_channel_n: i64,
    pub token: String,
    pub yt_video_id: Option<String>,
    pub yt_comment_id: Option<String>,
    pub last_verified: Option<i64>,
    pub last_channel_verified: Option<i64>,
    pub last_checked: Option<i64>,
    pub failed_checks: i64,
    pub user_yt_channel_id: Option<String>,
    pub member_on_last_update: bool,
    pub channel_name: Option<String>,
}

pub(crate) fn clone_opt_string(x: &Option<String>) -> (r: Option<String>)
    ensures
        r == x,
{
    match x {
        Some(s) => Some(s.clone()),
        None => None,
    }
}

impl VerificationRecord {
    /// Internal invariant of one record: the slot index is 0 (the default) or
    /// an explicit extra slot below 100, the failure counter is a count, the
    /// timestamps are unix seconds, and the proof location is set both ids or
    /// neither.
    pub open spec fn wf(self) -> bool {
        &&& 0 <= self.yt_channel_n < 100
        &&& 0 <= self.failed_checks
        &&& (self.yt_video_id is Some <==> self.yt_comment_id is Some)
        &&& (self.last_verified matches Some(t) ==> 0 <= t)
        &&& (self.last_channel_verified matches Some(t) ==> 0 <= t)
        &&& (self.last_checked matches Some(t) ==> 0 <= t)
    }

    /// This record is the binding of the given user, channel and slot.
    pub open spec fn is_key(self, user: u64, chan: Seq<char>, n: i64) -> bool {
        self.discord_id == user && self.yt_channel_id@ == chan && self.yt_channel_n == n
    }

    /// A copy of this record, equal to it as a value.
    pub fn clone_record(&self) -> (r: VerificationRecord)
        ensures
            r == self,
    {
        VerificationRecord {
            discord_id: self.discord_id,
            yt_channel_id: self.yt_channel_id.clone(),
            yt_channel_n: self.yt_channel_n,
            token: self.token.clone(),
            yt_video_id: clone_opt_string(&self.yt_video_id),
            yt_comment_id: clone_opt_string(&self.yt_comment_id),
            last_verified: self.last_verified,
            last_channel_verified: self.last_channel_verified,
            last_checked: self.last_checked,
            failed_checks: self.failed_checks,
            user_yt_channel_id: clone_opt_string(&self.user_yt_channel_id),
            member_on_last_update: self.member_on_last_update,
            channel_name: clone_opt_string(&self.channel_name),
        }
    }

    /// A fresh binding, as token issuance creates it.
    pub fn fresh(user: u64, chan: &str, n: i64, token: String) -> (r: VerificationRecord)
        requires
            0 <= n < 100,
        ensures
            r.wf(),
            r.is_key(user, chan@, n),
            r.token == token,
            r.yt_video_id is None,
            r.yt_comment_id is None,
            r.last_verified is None,
            r.last_channel_verified is None,
            r.last_checked is None,
            r.failed_checks == 0,
            r.user_yt_channel_id is None,
            !r.member_on_last_update,
            r.channel_name is None,
    {
        VerificationRecord {
            discord_id: user,
            yt_channel_id: chan.to_owned(),
            yt_channel_n: n,
            token,
            yt_video_id: None,
            yt_comment_id: None,
            last_verified: None,
            last_channel_verified: None,
            last_checked: None,
            failed_checks: 0,
            user_yt_channel_id: None,
            member_on_last_update: false,
            channel_name: None,
        }
    }
}

/// One guild's configuration: its id and the map from role id to the
/// external channel the role is tied to.
pub struct ServerRecord {
    pub server_id: u64,
    pub roles: Vec<(u64, String)>,
}

impl ServerRecord {
    /// Role ids are unique within one guild.
    pub open spec fn wf(self) -> bool {
        forall|i: int, j: int|
            0 <= i < j < self.roles@.len() ==> (#[trigger] self.roles@[i]).0 != (
            #[trigger] self.roles@[j]).0
    }
}

/// There is a record of the given guild.
pub open spec fn spec_has_server(servers: Seq<ServerRecord>, server: u64) -> bool {
    exists|i: int| 0 <= i < servers.len() && (#[trigger] servers[i]).server_id == server
}

/// The index of the given guild's record; meaningful only when
/// `spec_has_server` holds.
pub open spec fn spec_server_index(servers: Seq<ServerRecord>, server: u64) -> int {
    choose|i: int| 0 <= i < servers.len() && (#[trigger] servers[i]).server_id == server
}

/// The map holds an entry for the given role id.
pub open spec fn spec_has_role(roles: Seq<(u64, String)>, role: u64) -> bool {
    exists|i: int| 0 <= i < roles.len() && (#[trigger] roles[i]).0 == role
}

/// The index of the given role's entry; meaningful only when `spec_has_role`
/// holds.
pub open spec fn spec_role_index(roles: Seq<(u64, String)>, role: u64) -> int {
    choose|i: int| 0 <= i < roles.len() && (#[trigger] roles[i]).0 == role
}

/// There is a binding of the given user, channel and slot among the records.
pub open spec fn spec_has_key(users: Seq<VerificationRecord>, user: u64, chan: Seq<char>, n: i64) -> bool {
    exists|i: int| 0 <= i < users.len() && (#[trigger] users[i]).is_key(user, chan, n)
}

/// The index of the binding of the given user, channel and slot; meaningful
/// only when `spec_has_key` holds (keys are unique in a well-formed store).
pub open spec fn spec_key_index(users: Seq<VerificationRecord>, user: u64, chan: Seq<char>, n: i64) -> int {
    choose|i: int| 0 <= i < users.len() && (#[trigger] users[i]).is_key(user, chan, n)
}

/// The whole store.
pub struct Store {
    pub users: Vec<VerificationRecord>,
    pub servers: Vec<ServerRecord>,
}

impl Store {
    /// Store invariant: every record is well formed, binding keys are unique,
    /// and guild ids are unique.
    pub open spec fn wf(self) -> bool {
        &&& forall|i: int| 0 <= i < self.users@.len() ==> (#[trigger] self.users@[i]).wf()
        &&& forall|i: int, j: int|
            0 <= i < j < self.users@.len() ==> !(#[trigger] self.users@[j]).is_key(
                (#[trigger] self.users@[i]).discord_id,
                self.users@[i].yt_channel_id@,
                self.users@[i].yt_channel_n,
            )
        &&& forall|i: int| 0 <= i < self.servers@.len() ==> (#[trigger] self.servers@[i]).wf()
        &&& forall|i: int, j: int|
            0 <= i < j < self.servers@.len() ==> (#[trigger] self.servers@[i]).server_id != (
            #[trigger] self.servers@[j]).server_id
    }

    /// An empty store.
    pub fn new() -> (r: Store)
        ensures
            r.wf(),
            r.users@.len() == 0,
            r.servers@.len() == 0,
    {
        Store { users: Vec::new(), servers: Vec::new() }
    }

    /// Find the binding of the given user, channel and slot.
    pub fn find_user(&self, user: u64, chan: &str, n: i64) -> (r: Option<usize>)
        ensures
            match r {
                Some(i) => i < self.users@.len() && self.users@[i as int].is_key(user, chan@, n),
                None => !spec_has_key(self.users@, user, chan@, n),
            },
    {
        let len = self.users.len();
        let mut i: usize = 0;
        while i < len
            invariant
                i <= len,
                len == self.users@.len(),
                forall|k: int| 0 <= k < i ==> !(#[trigger] self.users@[k]).is_key(user, chan@, n),
            decreases len - i,
        {
            let rec = &self.users[i];
            if rec.discord_id == user && crate::text::str_eq(rec.yt_channel_id.as_str(), chan)
                && rec.yt_channel_n == n {
                return Some(i);
            }
            i = i + 1;
        }
        None
    }

    /// In a well-formed store any matching index is the key's index.
    pub proof fn lemma_key_index_unique(self, user: u64, chan: Seq<char>, n: i64, i: int)
        requires
            self.wf(),
            0 <= i < self.users@.len(),
            self.users@[i].is_key(user, chan, n),
        ensures
            spec_has_key(self.users@, user, chan, n),
            spec_key_index(self.users@, user, chan, n) == i,
    {
        assert(spec_has_key(self.users@, user, chan, n));
        let j = spec_key_index(self.users@, user, chan, n);
        assert(self.users@[j].is_key(user, chan, n));
        if i < j {
            assert(self.users@[i].discord_id == user);
        } else if j < i {
            assert(self.users@[j].discord_id == user);
        }
    }

    /// Issue or rotate a token: create the binding when it is new, otherwise
    /// reset it completely (fresh token, proof location and all verification
    /// state cleared).
    pub fn new_token(&mut self, user: u64, chan: &str, n: i64, token: String)
        requires
            old(self).wf(),
            0 <= n < 100,
        ensures
            final(self).wf(),
            final(self).servers@ == old(self).servers@,
            ({
                if spec_has_key(old(self).users@, user, chan@, n) {
                    let i = spec_key_index(old(self).users@, user, chan@, n);
                    final(self).users@ == old(self).users@.update(
                        i,
                        (VerificationRecord {
                            token: token,
                            yt_video_id: None,
                            yt_comment_id: None,
                            last_verified: None,
                            last_channel_verified: None,
                            last_checked: None,
                            failed_checks: 0,
                            user_yt_channel_id: None,
                            member_on_last_update: false,
                            channel_name: None,
                            ..old(self).users@[i]
                        }),
                    )
                } else {
                    let r = final(self).users@.last();
                    &&& final(self).users@.len() == old(self).users@.len() + 1
                    &&& final(self).users@.take(old(self).users@.len() as int) == old(self).users@
                    &&& r.is_key(user, chan@, n)
                    &&& r.token == token
                    &&& r.yt_video_id is None
                    &&& r.yt_comment_id is None
                    &&& r.last_verified is None
                    &&& r.last_channel_verified is None
                    &&& r.last_checked is None
                    &&& r.failed_checks == 0
                    &&& r.user_yt_channel_id is None
                    &&& !r.member_on_last_update
                    &&& r.channel_name is None
                }
            }),
    {
        match self.find_user(user, chan, n) {
            Some(i) => {
                proof {
                    self.lemma_key_index_unique(user, chan@, n, i as int);
                }
                let rec = &mut self.users[i];
                rec.token = token;
                rec.yt_video_id = None;
                rec.yt_comment_id = None;
                rec.last_verified = None;
                rec.last_channel_verified = None;
                rec.last_checked = None;
                rec.failed_checks = 0;
                rec.user_yt_channel_id = None;
                rec.member_on_last_update = false;
                rec.channel_name = None;
            },
            None => {
                let rec = VerificationRecord::fresh(user, chan, n, token);
                self.users.push(rec);
                proof {
                    assert(final(self).users@.take(old(self).users@.len() as int)
                        =~= old(self).users@);
                }
            },
        }
    }

    /// Remove the binding of the given user, channel and slot, if any.
    pub fn clear_token(&mut self, user: u64, chan: &str, n: i64)
        requires
            old(self).wf(),
        ensures
            final(self).wf(),
            final(self).servers@ == old(self).servers@,
            ({
                if spec_has_key(old(self).users@, user, chan@, n) {
                    let i = spec_key_index(old(self).users@, user, chan@, n);
                    final(self).users@ == old(self).users@.remove(i)
                } else {
                    final(self).users@ == old(self).users@
                }
            }),
    {
        match self.find_user(user, chan, n) {
            Some(i) => {
                proof {
                    self.lemma_key_index_unique(user, chan@, n, i as int);
                }
                self.users.remove(i);
            },
            None => {},
        }
    }

    /// Overwrite the stored token of an existing binding; no-op when the
    /// binding does not exist.
    pub fn force_token(&mut self, user: u64, chan: &str, n: i64, token: String)
        requires
            old(self).wf(),
        ensures
            final(self).wf(),
            final(self).servers@ == old(self).servers@,
            ({
                if spec_has_key(old(self).users@, user, chan@, n) {
                    let i = spec_key_index(old(self).users@, user, chan@, n);
                    final(self).users@ == old(self).users@.update(
                        i,
                        (VerificationRecord { token: token, ..old(self).users@[i] }),
                    )
                } else {
                    final(self).users@ == old(self).users@
                }
            }),
    {
        match self.find_user(user, chan, n) {
            Some(i) => {
                proof {
                    self.lemma_key_index_unique(user, chan@, n, i as int);
                }
                let rec = &mut self.users[i];
                rec.token = token;
            },
            None => {},
        }
    }

    /// Set the proof location of a user's bindings to one channel: when the
    /// default slot of the pair does not exist yet it is created with the
    /// given token, and then the video and comment ids are written to every
    /// slot of the pair.
    pub fn set_comment(
        &mut self,
        user: u64,
        chan: &str,
        token_for_new: String,
        video_id: &str,
        comment_id: &str,
    )
        requires
            old(self).wf(),
        ensures
            final(self).wf(),
            final(self).servers@ == old(self).servers@,
            final(self).users@.len() == old(self).users@.len() + (
            if spec_has_key(old(self).users@, user, chan@, 0) {
                0int
            } else {
                1int
            }),
            forall|i: int|
                0 <= i < old(self).users@.len() ==> {
                    let r0 = #[trigger] old(self).users@[i];
                    let r1 = final(self).users@[i];
                    if r0.discord_id == user && r0.yt_channel_id@ == chan@ {
                        &&& r1.yt_video_id matches Some(v) && v@ == video_id@
                        &&& r1.yt_comment_id matches Some(c) && c@ == comment_id@
                        &&& r1 == (VerificationRecord {
                            yt_video_id: r1.yt_video_id,
                            yt_comment_id: r1.yt_comment_id,
                            ..r0
                        })
                    } else {
                        r1 == r0
                    }
                },
            !spec_has_key(old(self).users@, user, chan@, 0) ==> {
                let r = final(self).users@.last();
                &&& r.is_key(user, chan@, 0)
                &&& r.token == token_for_new
                &&& r.yt_video_id matches Some(v) && v@ == video_id@
                &&& r.yt_comment_id matches Some(c) && c@ == comment_id@
                &&& r.last_verified is None
                &&& r.last_channel_verified is None
                &&& r.last_checked is None
                &&& r.failed_checks == 0
                &&& r.user_yt_channel_id is None
                &&& !r.member_on_last_update
                &&& r.channel_name is None
            },
    {
        let ghost n0 = self.users@.len() as int;
        if self.find_user(user, chan, 0).is_none() {
            let rec = VerificationRecord::fresh(user, chan, 0, token_for_new);
            self.users.push(rec);
        }
        let ghost mid = self.users@;
        let len = self.users.len();
        let mut i: usize = 0;
        while i < len
            invariant
                i <= len,
                len == self.users@.len(),
                self.users@.len() == mid.len(),
                self.servers@ == old(self).servers@,
                old(self).wf(),
                mid.len() == old(self).users@.len() + (
                if spec_has_key(old(self).users@, user, chan@, 0) {
                    0int
                } else {
                    1int
                }),
                forall|k: int| 0 <= k < old(self).users@.len() ==> mid[k] == old(self).users@[k],
                !spec_has_key(old(self).users@, user, chan@, 0) ==> {
                    let r = mid.last();
                    &&& r.wf()
                    &&& r.is_key(user, chan@, 0)
                    &&& r.token == token_for_new
                    &&& r.yt_video_id is None
                    &&& r.last_verified is None
                    &&& r.last_channel_verified is None
                    &&& r.last_checked is None
                    &&& r.failed_checks == 0
                    &&& r.user_yt_channel_id is None
                    &&& !r.member_on_last_update
                    &&& r.channel_name is None
                },
                forall|k: int|
                    i <= k < mid.len() ==> self.users@[k] == mid[k],
                forall|k: int|
                    0 <= k < i ==> {
                        let r0 = #[trigger] mid[k];
                        let r1 = self.users@[k];
                        if r0.discord_id == user && r0.yt_channel_id@ == chan@ {
                            &&& r1.yt_video_id matches Some(v) && v@ == video_id@
                            &&& r1.yt_comment_id matches Some(c) && c@ == comment_id@
                            &&& r1 == (VerificationRecord {
                                yt_video_id: r1.yt_video_id,
                                yt_comment_id: r1.yt_comment_id,
                                ..r0
                            })
                        } else {
                            r1 == r0
                        }
                    },
            decreases len - i,
        {
            let matches_pair = self.users[i].discord_id == user && crate::text::str_eq(
                self.users[i].yt_channel_id.as_str(),
                chan,
            );
            if matches_pair {
                let rec = &mut self.users[i];
                rec.yt_video_id = Some(video_id.to_owned());
                rec.yt_comment_id = Some(comment_id.to_owned());
            }
            i = i + 1;
        }
        proof {
            let fin = self.users@;
            assert forall|k: int| 0 <= k < mid.len() implies {
                &&& (#[trigger] fin[k]).discord_id == mid[k].discord_id
                &&& fin[k].yt_channel_id@ == mid[k].yt_channel_id@
                &&& fin[k].yt_channel_n == mid[k].yt_channel_n
                &&& fin[k].wf()
            } by {
                let r0 = mid[k];
                let r1 = fin[k];
                assert(if r0.discord_id == user && r0.yt_channel_id@ == chan@ {
                    &&& r1.yt_video_id matches Some(v) && v@ == video_id@
                    &&& r1.yt_comment_id matches Some(c) && c@ == comment_id@
                    &&& r1 == (VerificationRecord {
                        yt_video_id: r1.yt_video_id,
                        yt_comment_id: r1.yt_comment_id,
                        ..r0
                    })
                } else {
                    r1 == r0
                });
                if k < old(self).users@.len() {
                    assert(mid[k] == old(self).users@[k]);
                    assert(old(self).users@[k].wf());
                } else {
                    assert(mid[k] == mid.last());
                }
            }
            assert forall|a: int, b: int| 0 <= a < b < fin.len() implies !(
            #[trigger] fin[b]).is_key(
                (#[trigger] fin[a]).discord_id,
                fin[a].yt_channel_id@,
                fin[a].yt_channel_n,
            ) by {
                if b < old(self).users@.len() {
                    assert(mid[a] == old(self).users@[a]);
                    assert(mid[b] == old(self).users@[b]);
                } else if b == old(self).users@.len() && mid.len() == old(self).users@.len() + 1 {
                    assert(mid[a] == old(self).users@[a]);
                    assert(mid[b] == mid.last());
                    assert(!spec_has_key(old(self).users@, user, chan@, 0));
                    assert(!old(self).users@[a].is_key(user, chan@, 0));
                }
            }
        }
    }

    /// Find the record of the given guild.
    pub fn find_server(&self, server: u64) -> (r: Option<usize>)
        ensures
            match r {
                Some(i) => i < self.servers@.len() && self.servers@[i as int].server_id == server,
                None => !spec_has_server(self.servers@, server),
            },
    {
        let len = self.servers.len();
        let mut i: usize = 0;
        while i < len
            invariant
                i <= len,
                len == self.servers@.len(),
                forall|k: int| 0 <= k < i ==> (#[trigger] self.servers@[k]).server_id != server,
            decreases len - i,
        {
            if self.servers[i].server_id == server {
                return Some(i);
            }
            i = i + 1;
        }
        None
    }

    /// In a well-formed store any index with the guild's id is the guild's
    /// index.
    pub proof fn lemma_server_index_unique(self, server: u64, i: int)
        requires
            self.wf(),
            0 <= i < self.servers@.len(),
            self.servers@[i].server_id == server,
        ensures
            spec_has_server(self.servers@, server),
            spec_server_index(self.servers@, server) == i,
    {
        let j = spec_server_index(self.servers@, server);
        assert(self.servers@[j].server_id == server);
    }

    /// Tie a role of a guild to a channel, or untie it: with a channel the
    /// entry is merge-inserted (the guild record is created when absent);
    /// without one the entry is removed when present.
    pub fn set_role(&mut self, server: u64, role: u64, channel: Option<&str>)
        requires
            old(self).wf(),
        ensures
            final(self).wf(),
            final(self).users@ == old(self).users@,
            match channel {
                Some(ch) => {
                    if spec_has_server(old(self).servers@, server) {
                        let si = spec_server_index(old(self).servers@, server);
                        let roles0 = old(self).servers@[si].roles@;
                        let roles1 = final(self).servers@[si].roles@;
                        &&& final(self).servers@.len() == old(self).servers@.len()
                        &&& forall|k: int|
                            0 <= k < old(self).servers@.len() && k != si
                                ==> final(self).servers@[k] == old(self).servers@[k]
                        &&& final(self).servers@[si].server_id == server
                        &&& {
                            if spec_has_role(roles0, role) {
                                let ri = spec_role_index(roles0, role);
                                &&& roles1.len() == roles0.len()
                                &&& forall|k: int|
                                    0 <= k < roles0.len() && k != ri ==> roles1[k] == roles0[k]
                                &&& roles1[ri].0 == role
                                &&& roles1[ri].1@ == ch@
                            } else {
                                &&& roles1.len() == roles0.len() + 1
                                &&& roles1.take(roles0.len() as int) == roles0
                                &&& roles1.last().0 == role
                                &&& roles1.last().1@ == ch@
                            }
                        }
                    } else {
                        &&& final(self).servers@.len() == old(self).servers@.len() + 1
                        &&& final(self).servers@.take(old(self).servers@.len() as int) == old(
                            self,
                        ).servers@
                        &&& final(self).servers@.last().server_id == server
                        &&& final(self).servers@.last().roles@.len() == 1
                        &&& final(self).servers@.last().roles@[0].0 == role
                        &&& final(self).servers@.last().roles@[0].1@ == ch@
                    }
                },
                None => {
                    if spec_has_server(old(self).servers@, server) && spec_has_role(
                        old(self).servers@[spec_server_index(old(self).servers@, server)].roles@,
                        role,
                    ) {
                        let si = spec_server_index(old(self).servers@, server);
                        let roles0 = old(self).servers@[si].roles@;
                        let ri = spec_role_index(roles0, role);
                        &&& final(self).servers@.len() == old(self).servers@.len()
                        &&& forall|k: int|
                            0 <= k < old(self).servers@.len() && k != si
                                ==> final(self).servers@[k] == old(self).servers@[k]
                        &&& final(self).servers@[si].server_id == server
                        &&& final(self).servers@[si].roles@ == roles0.remove(ri)
                    } else {
                        final(self).servers@ == old(self).servers@
                    }
                },
            },
    {
        match channel {
            Some(ch) => {
                match self.find_server(server) {
                    Some(si) => {
                        proof {
                            self.lemma_server_index_unique(server, si as int);
                        }
                        let sr = &mut self.servers[si];
                        let rlen = sr.roles.len();
                        let mut k: usize = 0;
                        let mut found: Option<usize> = None;
                        while k < rlen
                            invariant
                                k <= rlen,
                                rlen == sr.roles@.len(),
                                match found {
                                    Some(f) => f < sr.roles@.len() && sr.roles@[f as int].0
                                        == role,
                                    None => forall|m: int|
                                        0 <= m < k ==> (#[trigger] sr.roles@[m]).0 != role,
                                },
                                found is Some ==> k == rlen,
                            decreases rlen - k + (if found is Some {
                                0int
                            } else {
                                1int
                            }),
                        {
                            if sr.roles[k].0 == role {
                                found = Some(k);
                                k = rlen;
                            } else {
                                k = k + 1;
                            }
                        }
                        match found {
                            Some(ri) => {
                                proof {
                                    let roles0 = sr.roles@;
                                    let rj = spec_role_index(roles0, role);
                                    assert(roles0[rj].0 == role);
                                }
                                sr.roles[ri] = (role, ch.to_owned());
                            },
                            None => {
                                sr.roles.push((role, ch.to_owned()));
                                proof {
                                    assert(sr.roles@.take(sr.roles@.len() - 1)
                                        =~= old(self).servers@[si as int].roles@);
                                }
                            },
                        }
                    },
                    None => {
                        let mut roles: Vec<(u64, String)> = Vec::new();
                        roles.push((role, ch.to_owned()));
                        self.servers.push(ServerRecord { server_id: server, roles });
                        proof {
                            assert(final(self).servers@.take(old(self).servers@.len() as int)
                                =~= old(self).servers@);
                        }
                    },
                }
            },
            None => {
                match self.find_server(server) {
                    Some(si) => {
                        proof {
                            self.lemma_server_index_unique(server, si as int);
                        }
                        let sr = &mut self.servers[si];
                        let rlen = sr.roles.len();
                        let mut k: usize = 0;
                        let mut found: Option<usize> = None;
                        while k < rlen
                            invariant
                                k <= rlen,
                                rlen == sr.roles@.len(),
                                match found {
                                    Some(f) => f < sr.roles@.len() && sr.roles@[f as int].0
                                        == role,
                                    None => forall|m: int|
                                        0 <= m < k ==> (#[trigger] sr.roles@[m]).0 != role,
                                },
                                found is Some ==> k == rlen,
                            decreases rlen - k + (if found is Some {
                                0int
                            } else {
                                1int
                            }),
                        {
                            if sr.roles[k].0 == role {
                                found = Some(k);
                                k = rlen;
                            } else {
                                k = k + 1;
                            }
                        }
                        match found {
                            Some(ri) => {
                                proof {
                                    let roles0 = sr.roles@;
                                    let rj = spec_role_index(roles0, role);
                                    assert(roles0[rj].0 == role);
                                }
                                sr.roles.remove(ri);
                            },
                            None => {},
                        }
                    },
                    None => {},
                }
            },
        }
    }
}

} // verus!
