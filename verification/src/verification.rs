//! The verification state machine: one pass over a binding applies the
//! checker's verdict, the token/ownership policy and the over-pairing rule,
//! and persists the outcome. The pass is split where the external checker
//! runs: `verify_begin` covers everything before the call, `verify_finish`
//! everything after it, so that an external failure between the two leaves
//! the pessimistic failure count in place.

use vstd::prelude::*;
use vstd::string::StringExecFns;
use crate::store::{Store, VerificationRecord, spec_has_key, spec_key_index};
use crate::text::{contains_str, spec_contains, str_eq};
use crate::checker::{MembershipStatus, MembershipStatusV, VideoInfo};

verus! {

/// A human-facing reason attached to a verification outcome or refusal.
#[derive(Debug)]
pub enum HumanContext {
    NotAMember,
    CouldNotLoadComment,
    TokenNotInComment,
    WrongChannel { correct: String, actual: String },
    UserNotConfigured,
    CommentNotSet,
    TooManyFailures,
    OverPairedDiscordId,
}

/// Abstract value of a `HumanContext`.
pub enum HumanContextV {
    NotAMember,
    CouldNotLoadComment,
    TokenNotInComment,
    WrongChannel { correct: Seq<char>, actual: Seq<char> },
    UserNotConfigured,
    CommentNotSet,
    TooManyFailures,
    OverPairedDiscordId,
}

impl DeepView for HumanContext {
    type V = HumanContextV;

    open spec fn deep_view(&self) -> HumanContextV {
        match self {
            HumanContext::NotAMember => HumanContextV::NotAMember,
            HumanContext::CouldNotLoadComment => HumanContextV::CouldNotLoadComment,
            HumanContext::TokenNotInComment => HumanContextV::TokenNotInComment,
            HumanContext::WrongChannel { correct, actual } => HumanContextV::WrongChannel {
                correct: correct@,
                actual: actual@,
            },
            HumanContext::UserNotConfigured => HumanContextV::UserNotConfigured,
            HumanContext::CommentNotSet => HumanContextV::CommentNotSet,
            HumanContext::TooManyFailures => HumanContextV::TooManyFailures,
            HumanContext::OverPairedDiscordId => HumanContextV::OverPairedDiscordId,
        }
    }
}

/// The short human-readable text of one reason.
pub open spec fn spec_message(v: HumanContextV) -> Seq<char> {
    match v {
        HumanContextV::NotAMember => "Not a member"@,
        HumanContextV::CouldNotLoadComment => "Could not load video or comment"@,
        HumanContextV::TokenNotInComment => "Comment does not contain token"@,
        HumanContextV::WrongChannel { correct, actual } => "Comment is not on the correct channel "@
            + correct + " != (actual)"@ + actual,
        HumanContextV::UserNotConfigured => "No token has been created for channel"@,
        HumanContextV::CommentNotSet => "No comment set for channel"@,
        HumanContextV::TooManyFailures => "Too many consecutive failures"@,
        HumanContextV::OverPairedDiscordId => "Too many discord ids paired to youtube account"@,
    }
}

impl HumanContext {
    /// Render the reason for a user.
    pub fn message(&self) -> (r: String)
        ensures
            r@ == spec_message(self.deep_view()),
    {
        match self {
            HumanContext::NotAMember => "Not a member".to_owned(),
            HumanContext::CouldNotLoadComment => "Could not load video or comment".to_owned(),
            HumanContext::TokenNotInComment => "Comment does not contain token".to_owned(),
            HumanContext::WrongChannel { correct, actual } => {
                let mut out = "Comment is not on the correct channel ".to_owned();
                out.append(correct.as_str());
                out.append(" != (actual)");
                out.append(actual.as_str());
                out
            },
            HumanContext::UserNotConfigured => "No token has been created for channel".to_owned(),
            HumanContext::CommentNotSet => "No comment set for channel".to_owned(),
            HumanContext::TooManyFailures => "Too many consecutive failures".to_owned(),
            HumanContext::OverPairedDiscordId => {
                "Too many discord ids paired to youtube account".to_owned()
            },
        }
    }
}

/// Outcome of one verification pass.
#[derive(Debug)]
pub struct VerifyResult {
    /// Id of the local user.
    pub discord_id: u64,
    pub yt_channel_id: String,
    pub channel_name: String,
    pub was_member: bool,
    pub is_member: bool,
    pub ownership_verified: bool,
    pub errors: Vec<HumanContext>,
}

impl VerifyResult {
    /// Membership was gained by this pass.
    pub fn became_member(&self) -> (r: bool)
        ensures
            r == (!self.was_member && self.is_member),
    {
        !self.was_member && self.is_member
    }

    /// Membership was lost by this pass.
    pub fn became_non_member(&self) -> (r: bool)
        ensures
            r == (self.was_member && !self.is_member),
    {
        self.was_member && !self.is_member
    }
}

/// The reasons of a lost membership, one indented line each.
pub open spec fn spec_reason_lines(es: Seq<HumanContextV>) -> Seq<char>
    decreases es.len(),
{
    if es.len() == 0 {
        Seq::empty()
    } else {
        spec_reason_lines(es.drop_last()) + "\n`  `"@ + spec_message(es.last())
    }
}

/// The one-line notification of a pass, when its membership flag flipped:
/// the gain message, or the loss message with the reasons attached.
pub open spec fn spec_notification(r: VerifyResult) -> Option<Seq<char>> {
    if !r.was_member && r.is_member {
        Some(
            "Membership to "@ + r.channel_name@ + " ("@ + r.yt_channel_id@ + ") is now verified"@,
        )
    } else if r.was_member && !r.is_member {
        Some(
            "Membership to "@ + r.channel_name@ + " ("@ + r.yt_channel_id@
                + ") is no longer verified"@ + spec_reason_lines(r.errors.deep_view()),
        )
    } else {
        None
    }
}

impl VerifyResult {
    /// The notification to send for this pass: one when the membership flag
    /// flipped, none otherwise.
    pub fn notification_message(&self) -> (r: Option<String>)
        ensures
            r.deep_view() == spec_notification(*self),
    {
        let flipped = self.was_member != self.is_member;
        if !flipped {
            return None;
        }
        let mut out = "Membership to ".to_owned();
        out.append(self.channel_name.as_str());
        out.append(" (");
        out.append(self.yt_channel_id.as_str());
        if self.is_member {
            out.append(") is now verified");
            return Some(out);
        }
        out.append(") is no longer verified");
        let ghost base = out@;
        let len = self.errors.len();
        let mut i: usize = 0;
        while i < len
            invariant
                i <= len,
                len == self.errors@.len(),
                self.errors.deep_view().len() == len,
                out@ == base + spec_reason_lines(self.errors.deep_view().take(i as int)),
            decreases len - i,
        {
            proof {
                assert(self.errors.deep_view().take(i + 1).drop_last()
                    =~= self.errors.deep_view().take(i as int));
                assert(self.errors.deep_view().take(i + 1).last() == self.errors.deep_view()[i as int]);
                assert(self.errors.deep_view()[i as int] == self.errors@[i as int].deep_view());
            }
            out.append("\n`  `");
            let line = self.errors[i].message();
            out.append(line.as_str());
            i = i + 1;
        }
        proof {
            assert(self.errors.deep_view().take(len as int) =~= self.errors.deep_view());
        }
        Some(out)
    }
}

/// The record links the given external account as its owner.
pub open spec fn spec_has_owner(r: VerificationRecord, owner: Seq<char>) -> bool {
    r.user_yt_channel_id matches Some(c) && c@ == owner
}

/// The given external account has already proven ownership for this local
/// user on some binding.
pub open spec fn spec_prior_ownership(
    users: Seq<VerificationRecord>,
    user: u64,
    commenter: Seq<char>,
) -> bool {
    exists|i: int|
        0 <= i < users.len() && {
            let r = #[trigger] users[i];
            &&& r.discord_id == user
            &&& spec_has_owner(r, commenter)
            &&& r.last_channel_verified is Some
        }
}

/// The distinct local users whose bindings name the given external account
/// as owner.
pub open spec fn spec_owner_ids(users: Seq<VerificationRecord>, owner: Seq<char>) -> Set<u64>
    decreases users.len(),
{
    if users.len() == 0 {
        Set::empty()
    } else {
        let rest = spec_owner_ids(users.drop_last(), owner);
        if spec_has_owner(users.last(), owner) {
            rest.insert(users.last().discord_id)
        } else {
            rest
        }
    }
}

/// The external account is linked to more than three distinct local users.
pub open spec fn spec_over_paired(users: Seq<VerificationRecord>, owner: Seq<char>) -> bool {
    spec_owner_ids(users, owner).len() > 3
}

/// The owner-id set is finite and contains exactly the users of the
/// owner-linked records.
pub proof fn lemma_owner_ids(users: Seq<VerificationRecord>, owner: Seq<char>)
    ensures
        spec_owner_ids(users, owner).finite(),
        forall|d: u64|
            spec_owner_ids(users, owner).contains(d) <==> exists|i: int|
                0 <= i < users.len() && (#[trigger] users[i]).discord_id == d && spec_has_owner(
                    users[i],
                    owner,
                ),
    decreases users.len(),
{
    if users.len() == 0 {
    } else {
        lemma_owner_ids(users.drop_last(), owner);
        let rest = users.drop_last();
        assert forall|d: u64| spec_owner_ids(users, owner).contains(d) implies exists|i: int|
            0 <= i < users.len() && (#[trigger] users[i]).discord_id == d && spec_has_owner(
                users[i],
                owner,
            ) by {
            if spec_has_owner(users.last(), owner) && users.last().discord_id == d {
                assert(users[users.len() - 1].discord_id == d);
            } else {
                assert(spec_owner_ids(rest, owner).contains(d));
                let i = choose|i: int|
                    0 <= i < rest.len() && (#[trigger] rest[i]).discord_id == d && spec_has_owner(
                        rest[i],
                        owner,
                    );
                assert(users[i].discord_id == d && spec_has_owner(users[i], owner));
            }
        }
        assert forall|d: u64|
            (exists|i: int|
                0 <= i < users.len() && (#[trigger] users[i]).discord_id == d && spec_has_owner(
                    users[i],
                    owner,
                )) implies spec_owner_ids(users, owner).contains(d) by {
            let i = choose|i: int|
                0 <= i < users.len() && (#[trigger] users[i]).discord_id == d && spec_has_owner(
                    users[i],
                    owner,
                );
            if i < users.len() - 1 {
                assert(rest[i].discord_id == d && spec_has_owner(rest[i], owner));
            }
        }
    }
}

fn has_prior_ownership(users: &Vec<VerificationRecord>, user: u64, commenter: &str) -> (r: bool)
    ensures
        r == spec_prior_ownership(users@, user, commenter@),
{
    let len = users.len();
    let mut i: usize = 0;
    while i < len
        invariant
            i <= len,
            len == users@.len(),
            forall|k: int|
                0 <= k < i ==> !{
                    let r = #[trigger] users@[k];
                    &&& r.discord_id == user
                    &&& spec_has_owner(r, commenter@)
                    &&& r.last_channel_verified is Some
                },
        decreases len - i,
    {
        let rec = &users[i];
        let owner_matches = match &rec.user_yt_channel_id {
            Some(c) => str_eq(c.as_str(), commenter),
            None => false,
        };
        if rec.discord_id == user && owner_matches && rec.last_channel_verified.is_some() {
            return true;
        }
        i = i + 1;
    }
    false
}

fn seen_contains(seen: &Vec<u64>, x: u64) -> (r: bool)
    ensures
        r == seen@.contains(x),
{
    let len = seen.len();
    let mut i: usize = 0;
    while i < len
        invariant
            i <= len,
            len == seen@.len(),
            forall|k: int| 0 <= k < i ==> seen@[k] != x,
        decreases len - i,
    {
        if seen[i] == x {
            return true;
        }
        i = i + 1;
    }
    false
}

/// Count the distinct local users linked to the given external account.
pub fn count_owner_ids(users: &Vec<VerificationRecord>, owner: &str) -> (r: usize)
    ensures
        r == spec_owner_ids(users@, owner@).len(),
{
    let len = users.len();
    let mut seen: Vec<u64> = Vec::new();
    let mut i: usize = 0;
    while i < len
        invariant
            i <= len,
            len == users@.len(),
            seen@.no_duplicates(),
            seen@.to_set() == spec_owner_ids(users@.take(i as int), owner@),
        decreases len - i,
    {
        let rec = &users[i];
        let owner_matches = match &rec.user_yt_channel_id {
            Some(c) => str_eq(c.as_str(), owner),
            None => false,
        };
        proof {
            assert(users@.take(i + 1).drop_last() =~= users@.take(i as int));
            assert(users@.take(i + 1).last() == users@[i as int]);
        }
        if owner_matches {
            if !seen_contains(&seen, rec.discord_id) {
                let ghost seen0 = seen@;
                seen.push(rec.discord_id);
                proof {
                    assert forall|a: int, b: int| 0 <= a < b < seen@.len() implies seen@[a]
                        != seen@[b] by {
                        if b < seen0.len() {
                        } else {
                            assert(seen@[b] == rec.discord_id);
                            assert(seen0[a] == seen@[a]);
                            assert(!seen0.contains(rec.discord_id));
                        }
                    }
                    assert forall|y: u64| #[trigger] seen@.to_set().contains(y) implies seen0.to_set().insert(
                        rec.discord_id,
                    ).contains(y) by {
                        let ix = choose|ix: int| 0 <= ix < seen@.len() && seen@[ix] == y;
                        if ix < seen0.len() {
                            assert(seen0[ix] == y);
                        }
                    }
                    assert forall|y: u64| #[trigger] seen0.to_set().insert(rec.discord_id).contains(
                        y,
                    ) implies seen@.to_set().contains(y) by {
                        if y == rec.discord_id {
                            assert(seen@[seen@.len() - 1] == y);
                        } else {
                            let ix = choose|ix: int| 0 <= ix < seen0.len() && seen0[ix] == y;
                            assert(seen@[ix] == y);
                        }
                    }
                    assert(seen@.to_set() =~= seen0.to_set().insert(rec.discord_id));
                }
            } else {
                proof {
                    assert(seen@.to_set().insert(rec.discord_id) =~= seen@.to_set());
                }
            }
        }
        i = i + 1;
    }
    proof {
        assert(users@.take(len as int) =~= users@);
        seen@.unique_seq_to_set();
    }
    seen.len()
}

/// The decision of one pass, in abstract form: the ordered reasons, the
/// membership flag, and the external account whose ownership this pass
/// establishes, if any.
pub struct VerifyDecision {
    pub errors: Seq<HumanContextV>,
    pub is_member: bool,
    pub ownership: Option<Seq<char>>,
}

/// Fold the over-pairing rule into a tentative decision: an ownership
/// candidate whose account is already linked to more than three distinct
/// users is rejected for this pass, with a non-blocking reason.
pub open spec fn spec_apply_over_pairing(
    users: Seq<VerificationRecord>,
    blocking: Seq<HumanContextV>,
    ownership_errors: Seq<HumanContextV>,
    candidate: Option<Seq<char>>,
) -> VerifyDecision {
    let over = candidate matches Some(c) && spec_over_paired(users, c);
    let own2 = if over {
        ownership_errors.push(HumanContextV::OverPairedDiscordId)
    } else {
        ownership_errors
    };
    VerifyDecision {
        errors: blocking + own2,
        is_member: blocking.len() == 0,
        ownership: if over {
            None
        } else {
            candidate
        },
    }
}

/// The membership and ownership policy of one pass. A member's comment must
/// contain the stored token, unless the commenting account already proved
/// ownership for this user; a comment on the wrong channel blocks membership;
/// a non-member's token-bearing comment still proves ownership; a missing
/// comment blocks membership and proves nothing. Membership is granted
/// exactly when no blocking reason was raised.
pub open spec fn spec_decide(
    users: Seq<VerificationRecord>,
    user: u64,
    chan: Seq<char>,
    token: Seq<char>,
    status: MembershipStatusV,
) -> VerifyDecision {
    match status {
        MembershipStatusV::Member { channel_id: actual, user_channel_id: commenter, text } => {
            let token_in = spec_contains(text, token);
            let prior = spec_prior_ownership(users, user, commenter);
            let blocking = (if !token_in && !prior {
                seq![HumanContextV::TokenNotInComment]
            } else {
                Seq::empty()
            }) + (if actual != chan {
                seq![HumanContextV::WrongChannel { correct: chan, actual: actual }]
            } else {
                Seq::empty()
            });
            let candidate = if token_in {
                Some(commenter)
            } else {
                None
            };
            spec_apply_over_pairing(users, blocking, Seq::empty(), candidate)
        },
        MembershipStatusV::Not { channel_id: actual, user_channel_id: commenter, text } => {
            let token_in = spec_contains(text, token);
            let blocking = seq![HumanContextV::NotAMember] + (if actual != chan {
                seq![HumanContextV::WrongChannel { correct: chan, actual: actual }]
            } else {
                Seq::empty()
            });
            let ownership_errors = if token_in {
                Seq::empty()
            } else {
                seq![HumanContextV::TokenNotInComment]
            };
            let candidate = if token_in {
                Some(commenter)
            } else {
                None
            };
            spec_apply_over_pairing(users, blocking, ownership_errors, candidate)
        },
        MembershipStatusV::NotFound => {
            spec_apply_over_pairing(
                users,
                seq![HumanContextV::CouldNotLoadComment],
                Seq::empty(),
                None,
            )
        },
    }
}

/// Token matching, on a member report. A comment text that holds the stored
/// token establishes ownership with the commenting account, unless that
/// account is over-paired; a text without the token, for a user with no prior
/// ownership record of that account, records the missing token as a blocking
/// reason and establishes nothing.
pub proof fn lemma_token_matching(
    users: Seq<VerificationRecord>,
    user: u64,
    chan: Seq<char>,
    token: Seq<char>,
    actual: Seq<char>,
    commenter: Seq<char>,
    text: Seq<char>,
)
    ensures
        ({
            let d = spec_decide(
                users,
                user,
                chan,
                token,
                MembershipStatusV::Member {
                    channel_id: actual,
                    user_channel_id: commenter,
                    text: text,
                },
            );
            &&& (spec_contains(text, token) && !spec_over_paired(users, commenter) ==> d.ownership
                == Some(commenter))
            &&& (spec_contains(text, token) && spec_over_paired(users, commenter) ==> d.ownership
                is None && d.errors.contains(HumanContextV::OverPairedDiscordId))
            &&& (!spec_contains(text, token) && !spec_prior_ownership(users, user, commenter)
                ==> d.ownership is None && d.errors[0] == HumanContextV::TokenNotInComment)
        }),
{
    let d = spec_decide(
        users,
        user,
        chan,
        token,
        MembershipStatusV::Member { channel_id: actual, user_channel_id: commenter, text: text },
    );
    if spec_contains(text, token) && spec_over_paired(users, commenter) {
        assert(d.errors.last() == HumanContextV::OverPairedDiscordId);
    }
}

/// The commenting account named by a verdict; meaningful only for the two
/// comment-bearing verdicts.
pub open spec fn spec_commenter_of(status: MembershipStatus) -> String {
    match status {
        MembershipStatus::Member { user_channel_id, .. } => user_channel_id,
        MembershipStatus::Not { user_channel_id, .. } => user_channel_id,
        MembershipStatus::NotFound => vstd::pervasive::arbitrary(),
    }
}

/// What `verify_begin` hands over for the rest of the pass: the stored
/// token, the proof location, and the previous membership flag.
#[derive(Debug)]
pub struct VerifyBegun {
    pub token: String,
    pub video_id: String,
    pub comment_id: String,
    pub was_member: bool,
}

/// Start one verification pass: load the binding, require a proof location
/// and a failure count of at most five, then pessimistically stamp the check
/// time and raise the failure count, so that a pass that never completes
/// still counts as a failure. `last_verified` is untouched here.
pub fn verify_begin(store: &mut Store, user: u64, chan: &str, n: i64, now: i64) -> (r: Result<
    VerifyBegun,
    HumanContext,
>)
    requires
        old(store).wf(),
        now >= 0,
    ensures
        final(store).wf(),
        final(store).servers@ == old(store).servers@,
        ({
            if !spec_has_key(old(store).users@, user, chan@, n) {
                &&& r matches Err(e) && e == HumanContext::UserNotConfigured
                &&& final(store).users@ == old(store).users@
            } else {
                let i = spec_key_index(old(store).users@, user, chan@, n);
                let rec = old(store).users@[i];
                if rec.yt_video_id is None || rec.yt_comment_id is None {
                    &&& r matches Err(e) && e == HumanContext::CommentNotSet
                    &&& final(store).users@ == old(store).users@
                } else if rec.failed_checks > 5 {
                    &&& r matches Err(e) && e == HumanContext::TooManyFailures
                    &&& final(store).users@ == old(store).users@
                } else {
                    &&& r matches Ok(b) && {
                        &&& b.token == rec.token
                        &&& rec.yt_video_id matches Some(v) && b.video_id == v
                        &&& rec.yt_comment_id matches Some(c) && b.comment_id == c
                        &&& b.was_member == rec.member_on_last_update
                    }
                    &&& final(store).users@ == old(store).users@.update(
                        i,
                        (VerificationRecord {
                            last_checked: Some(now),
                            failed_checks: (rec.failed_checks + 1) as i64,
                            ..rec
                        }),
                    )
                }
            }
        }),
{
    let idx = match store.find_user(user, chan, n) {
        Some(i) => i,
        None => {
            return Err(HumanContext::UserNotConfigured);
        },
    };
    proof {
        store.lemma_key_index_unique(user, chan@, n, idx as int);
    }
    let (video_id, comment_id) = match (&store.users[idx].yt_video_id, &store.users[idx].yt_comment_id) {
        (Some(v), Some(c)) => (v.clone(), c.clone()),
        _ => {
            return Err(HumanContext::CommentNotSet);
        },
    };
    if store.users[idx].failed_checks > 5 {
        return Err(HumanContext::TooManyFailures);
    }
    let token = store.users[idx].token.clone();
    let was_member = store.users[idx].member_on_last_update;
    let rec = &mut store.users[idx];
    rec.last_checked = Some(now);
    rec.failed_checks = rec.failed_checks + 1;
    Ok(VerifyBegun { token, video_id, comment_id, was_member })
}

/// Finish one verification pass with what the checker reported: apply the
/// policy (`spec_decide`), then persist the outcome on the binding — the
/// resolved channel name always; `last_verified` stamped on success and
/// cleared on failure; the owning account and its stamp only when ownership
/// was established this pass; the failure count reset; and the membership
/// flag recorded for edge detection.
pub fn verify_finish(
    store: &mut Store,
    user: u64,
    chan: &str,
    n: i64,
    now: i64,
    begun: &VerifyBegun,
    info: &VideoInfo,
    status: MembershipStatus,
) -> (r: VerifyResult)
    requires
        old(store).wf(),
        now >= 0,
        spec_has_key(old(store).users@, user, chan@, n),
    ensures
        final(store).wf(),
        final(store).servers@ == old(store).servers@,
        ({
            let i = spec_key_index(old(store).users@, user, chan@, n);
            let rec = old(store).users@[i];
            let d = spec_decide(
                old(store).users@,
                user,
                chan@,
                begun.token@,
                status.deep_view(),
            );
            &&& r.discord_id == user
            &&& r.yt_channel_id@ == chan@
            &&& r.channel_name == info.channel_name
            &&& r.was_member == begun.was_member
            &&& r.is_member == d.is_member
            &&& r.ownership_verified == (d.ownership is Some)
            &&& r.errors.deep_view() == d.errors
            &&& final(store).users@ == old(store).users@.update(
                i,
                (VerificationRecord {
                    channel_name: Some(info.channel_name),
                    last_verified: if d.is_member {
                        Some(now)
                    } else {
                        None
                    },
                    last_channel_verified: if d.ownership is Some {
                        Some(now)
                    } else {
                        rec.last_channel_verified
                    },
                    user_yt_channel_id: if d.ownership is Some {
                        Some(spec_commenter_of(status))
                    } else {
                        rec.user_yt_channel_id
                    },
                    failed_checks: 0,
                    member_on_last_update: d.is_member,
                    ..rec
                }),
            )
        }),
{
    let idx = match store.find_user(user, chan, n) {
        Some(i) => i,
        None => {
            proof {
                assert(false);
            }
            vstd::pervasive::unreached()
        },
    };
    proof {
        store.lemma_key_index_unique(user, chan@, n, idx as int);
    }
    let ghost d = spec_decide(store.users@, user, chan@, begun.token@, status.deep_view());
    let mut errors: Vec<HumanContext> = Vec::new();
    let mut ownership_errors: Vec<HumanContext> = Vec::new();
    let candidate: Option<String> = match status {
        MembershipStatus::Member { channel_id: actual, user_channel_id: commenter, text } => {
            let token_in = contains_str(text.as_str(), begun.token.as_str());
            let cand = if token_in {
                Some(commenter)
            } else {
                let prior = has_prior_ownership(&store.users, user, commenter.as_str());
                if !prior {
                    errors.push(HumanContext::TokenNotInComment);
                }
                None
            };
            if !str_eq(actual.as_str(), chan) {
                errors.push(
                    HumanContext::WrongChannel { correct: chan.to_owned(), actual: actual },
                );
            }
            cand
        },
        MembershipStatus::Not { channel_id: actual, user_channel_id: commenter, text } => {
            errors.push(HumanContext::NotAMember);
            if !str_eq(actual.as_str(), chan) {
                errors.push(
                    HumanContext::WrongChannel { correct: chan.to_owned(), actual: actual },
                );
            }
            let token_in = contains_str(text.as_str(), begun.token.as_str());
            if token_in {
                Some(commenter)
            } else {
                ownership_errors.push(HumanContext::TokenNotInComment);
                None
            }
        },
        MembershipStatus::NotFound => {
            errors.push(HumanContext::CouldNotLoadComment);
            None
        },
    };
    let is_member = errors.len() == 0;
    let candidate: Option<String> = match candidate {
        Some(c) => {
            let cnt = count_owner_ids(&store.users, c.as_str());
            if cnt > 3 {
                ownership_errors.push(HumanContext::OverPairedDiscordId);
                None
            } else {
                Some(c)
            }
        },
        None => None,
    };
    let ownership_verified = candidate.is_some();
    let mut all_errors = errors;
    all_errors.append(&mut ownership_errors);
    proof {
        assert(all_errors.deep_view() =~= d.errors);
        assert(is_member == d.is_member);
        assert(ownership_verified == (d.ownership is Some));
    }
    let rec = &mut store.users[idx];
    rec.channel_name = Some(info.channel_name.clone());
    rec.last_verified = if is_member {
        Some(now)
    } else {
        None
    };
    match candidate {
        Some(c) => {
            rec.user_yt_channel_id = Some(c);
            rec.last_channel_verified = Some(now);
        },
        None => {},
    }
    rec.failed_checks = 0;
    rec.member_on_last_update = is_member;
    VerifyResult {
        discord_id: user,
        yt_channel_id: chan.to_owned(),
        channel_name: info.channel_name.clone(),
        was_member: begun.was_member,
        is_member,
        ownership_verified,
        errors: all_errors,
    }
}

/// The re-check cool-down, in seconds (2 days).
pub open spec fn spec_cooldown() -> int {
    172800
}

/// A binding is due for a re-check: a proof location is set, at most five
/// failures have accumulated, and both the last check and the last successful
/// verification lie further back than the cool-down.
pub open spec fn spec_eligible(r: VerificationRecord, now: int) -> bool {
    &&& r.yt_video_id is Some
    &&& r.yt_comment_id is Some
    &&& r.failed_checks <= 5
    &&& r.last_checked matches Some(t) && now - t > spec_cooldown()
    &&& r.last_verified matches Some(t) && now - t > spec_cooldown()
}

/// The keys of the due bindings, in store order.
pub open spec fn spec_pending(users: Seq<VerificationRecord>, now: int) -> Seq<(u64, Seq<char>, i64)>
    decreases users.len(),
{
    if users.len() == 0 {
        Seq::empty()
    } else {
        let rest = spec_pending(users.drop_last(), now);
        let r = users.last();
        if spec_eligible(r, now) {
            rest.push((r.discord_id, r.yt_channel_id@, r.yt_channel_n))
        } else {
            rest
        }
    }
}

/// Select up to `limit` bindings that are due for a re-check, in store order.
pub fn pending_bindings(store: &Store, now: i64, limit: usize) -> (r: Vec<(u64, String, i64)>)
    requires
        store.wf(),
        now >= 0,
    ensures
        ({
            let all = spec_pending(store.users@, now as int);
            r.deep_view() == if all.len() <= limit {
                all
            } else {
                all.take(limit as int)
            }
        }),
{
    let len = store.users.len();
    let mut acc: Vec<(u64, String, i64)> = Vec::new();
    let mut i: usize = 0;
    while i < len
        invariant
            i <= len,
            len == store.users@.len(),
            store.wf(),
            now >= 0,
            acc.deep_view() == spec_pending(store.users@.take(i as int), now as int),
        decreases len - i,
    {
        proof {
            assert(store.users@.take(i + 1).drop_last() =~= store.users@.take(i as int));
            assert(store.users@.take(i + 1).last() == store.users@[i as int]);
        }
        let rec = &store.users[i];
        let due = rec.yt_video_id.is_some() && rec.yt_comment_id.is_some() && rec.failed_checks
            <= 5 && (match rec.last_checked {
            Some(t) => now - t > 172800,
            None => false,
        }) && (match rec.last_verified {
            Some(t) => now - t > 172800,
            None => false,
        });
        if due {
            let ghost acc0 = acc.deep_view();
            acc.push((rec.discord_id, rec.yt_channel_id.clone(), rec.yt_channel_n));
            proof {
                assert(acc.deep_view() =~= acc0.push(
                    (rec.discord_id, rec.yt_channel_id@, rec.yt_channel_n),
                ));
            }
        }
        i = i + 1;
    }
    proof {
        assert(store.users@.take(len as int) =~= store.users@);
    }
    if acc.len() > limit {
        let ghost before = acc.deep_view();
        acc.truncate(limit);
        proof {
            assert(acc.deep_view() =~= before.take(limit as int));
        }
    }
    acc
}

/// The records that survive an over-pairing purge of the given state: every
/// record whose owning account is linked to more than three distinct users is
/// removed.
pub open spec fn spec_purged(users: Seq<VerificationRecord>) -> Seq<VerificationRecord> {
    users.filter(
        |x: VerificationRecord|
            !(x.user_yt_channel_id matches Some(c) && spec_over_paired(users, c@)),
    )
}

fn owners_contain(owners: &Vec<String>, owner: &str) -> (r: bool)
    ensures
        r == owners.deep_view().contains(owner@),
{
    let len = owners.len();
    let mut i: usize = 0;
    while i < len
        invariant
            i <= len,
            len == owners@.len(),
            forall|k: int| 0 <= k < i ==> owners.deep_view()[k] != owner@,
        decreases len - i,
    {
        if str_eq(owners[i].as_str(), owner) {
            proof {
                assert(owners.deep_view()[i as int] == owner@);
            }
            return true;
        }
        i = i + 1;
    }
    false
}

/// Detect every external account linked to more than three distinct local
/// users, delete all bindings of those accounts, and report the purged
/// accounts. Re-running with no new over-pairings is a no-op.
pub fn check_over_paired_discord_ids(store: &mut Store) -> (r: Vec<String>)
    requires
        old(store).wf(),
    ensures
        final(store).wf(),
        final(store).servers@ == old(store).servers@,
        final(store).users@ == spec_purged(old(store).users@),
        r.deep_view().no_duplicates(),
        forall|o: Seq<char>|
            #[trigger] r.deep_view().contains(o) <==> exists|i: int|
                0 <= i < old(store).users@.len() && spec_has_owner(
                    #[trigger] old(store).users@[i],
                    o,
                ) && spec_over_paired(old(store).users@, o),
{
    let len = store.users.len();
    let mut owners: Vec<String> = Vec::new();
    let mut i: usize = 0;
    while i < len
        invariant
            i <= len,
            len == store.users@.len(),
            store.wf(),
            owners.deep_view().no_duplicates(),
            forall|o: Seq<char>|
                #[trigger] owners.deep_view().contains(o) <==> exists|k: int|
                    0 <= k < i && spec_has_owner(#[trigger] store.users@[k], o)
                        && spec_over_paired(store.users@, o),
        decreases len - i,
    {
        let rec = &store.users[i];
        match &rec.user_yt_channel_id {
            Some(c) => {
                let cnt = count_owner_ids(&store.users, c.as_str());
                if cnt > 3 && !owners_contain(&owners, c.as_str()) {
                    let ghost owners0 = owners.deep_view();
                    owners.push(c.clone());
                    proof {
                        assert(owners.deep_view() =~= owners0.push(c@));
                        assert forall|a: int, b: int|
                            0 <= a < b < owners.deep_view().len() implies owners.deep_view()[a]
                            != owners.deep_view()[b] by {
                            if b == owners0.len() {
                                assert(!owners0.contains(owners.deep_view()[b]));
                            }
                        }
                        assert forall|o: Seq<char>| #[trigger] owners.deep_view().contains(o) implies exists|k: int|
                            0 <= k < i + 1 && spec_has_owner(#[trigger] store.users@[k], o)
                                && spec_over_paired(store.users@, o) by {
                            if o == c@ {
                                assert(spec_has_owner(store.users@[i as int], o));
                            } else {
                                let ix = choose|ix: int|
                                    0 <= ix < owners0.len() && owners0[ix] == o;
                                assert(owners0.contains(o));
                            }
                        }
                        assert forall|o: Seq<char>|
                            (exists|k: int|
                                0 <= k < i + 1 && spec_has_owner(#[trigger] store.users@[k], o)
                                    && spec_over_paired(
                                    store.users@,
                                    o,
                                )) implies owners.deep_view().contains(o) by {
                            let k = choose|k: int|
                                0 <= k < i + 1 && spec_has_owner(#[trigger] store.users@[k], o)
                                    && spec_over_paired(store.users@, o);
                            if k < i {
                                assert(owners0.contains(o));
                                let ix = choose|ix: int|
                                    0 <= ix < owners0.len() && owners0[ix] == o;
                                assert(owners.deep_view()[ix] == o);
                            } else {
                                assert(owners.deep_view().last() == o);
                            }
                        }
                    }
                } else {
                    proof {
                        assert forall|o: Seq<char>|
                            (exists|k: int|
                                0 <= k < i + 1 && spec_has_owner(#[trigger] store.users@[k], o)
                                    && spec_over_paired(
                                    store.users@,
                                    o,
                                )) implies owners.deep_view().contains(o) by {
                            let k = choose|k: int|
                                0 <= k < i + 1 && spec_has_owner(#[trigger] store.users@[k], o)
                                    && spec_over_paired(store.users@, o);
                            if k == i {
                                assert(o == c@);
                                lemma_owner_ids(store.users@, o);
                                assert(spec_over_paired(store.users@, c@));
                            }
                        }
                    }
                }
            },
            None => {},
        }
        i = i + 1;
    }
    let ghost users0 = store.users@;
    let mut keep: Vec<VerificationRecord> = Vec::new();
    let mut j: usize = 0;
    while j < len
        invariant
            j <= len,
            len == store.users@.len(),
            store.users@ == users0,
            store.wf(),
            forall|o: Seq<char>|
                #[trigger] owners.deep_view().contains(o) <==> exists|k: int|
                    0 <= k < users0.len() && spec_has_owner(#[trigger] users0[k], o)
                        && spec_over_paired(users0, o),
            keep@ == users0.take(j as int).filter(
                |x: VerificationRecord|
                    !(x.user_yt_channel_id matches Some(c) && spec_over_paired(users0, c@)),
            ),
        decreases len - j,
    {
        proof {
            broadcast use vstd::prelude::Seq::lemma_filter_push;

            assert(users0.take(j + 1).drop_last() =~= users0.take(j as int));
            assert(users0.take(j + 1) =~= users0.take(j as int).push(users0[j as int]));
        }
        let rec = &store.users[j];
        let drop_it = match &rec.user_yt_channel_id {
            Some(c) => {
                let inside = owners_contain(&owners, c.as_str());
                proof {
                    if inside {
                        assert(spec_over_paired(users0, c@));
                    } else {
                        if spec_over_paired(users0, c@) {
                            assert(spec_has_owner(users0[j as int], c@));
                            assert(owners.deep_view().contains(c@));
                        }
                    }
                }
                inside
            },
            None => false,
        };
        if !drop_it {
            keep.push(rec.clone_record());
        }
        j = j + 1;
    }
    proof {
        assert(users0.take(len as int) =~= users0);
    }
    store.users = keep;
    proof {
        assert forall|a: int| 0 <= a < final(store).users@.len() implies (
        #[trigger] final(store).users@[a]).wf() by {
            vstd::prelude::Seq::lemma_filter_pred(
                users0,
                |x: VerificationRecord|
                    !(x.user_yt_channel_id matches Some(c) && spec_over_paired(users0, c@)),
                a,
            );
            lemma_filter_keeps_wf_and_keys(users0, a);
        }
        lemma_purged_unique_keys(users0);
    }
    owners
}

/// Every element of the purged state is an element of the original state.
proof fn lemma_filter_keeps_wf_and_keys(users: Seq<VerificationRecord>, a: int)
    requires
        0 <= a < spec_purged(users).len(),
    ensures
        exists|i: int| 0 <= i < users.len() && users[i] == spec_purged(users)[a],
    decreases users.len(),
{
    reveal(Seq::filter);
    let pred = |x: VerificationRecord|
        !(x.user_yt_channel_id matches Some(c) && spec_over_paired(users, c@));
    lemma_filter_element_of(users, pred, a);
}

/// Every element of a filtered sequence is an element of the original.
proof fn lemma_filter_element_of<A>(s: Seq<A>, pred: spec_fn(A) -> bool, a: int)
    requires
        0 <= a < s.filter(pred).len(),
    ensures
        exists|i: int| 0 <= i < s.len() && s[i] == s.filter(pred)[a],
    decreases s.len(),
{
    reveal(Seq::filter);
    if s.len() == 0 {
    } else {
        let rest = s.drop_last();
        if pred(s.last()) && a == s.filter(pred).len() - 1 {
            assert(s[s.len() - 1] == s.filter(pred)[a]);
        } else {
            lemma_filter_element_of(rest, pred, a);
            let i = choose|i: int| 0 <= i < rest.len() && rest[i] == rest.filter(pred)[a];
            assert(s[i] == s.filter(pred)[a]);
        }
    }
}

/// The purge keeps the keys unique: it only removes records.
proof fn lemma_purged_unique_keys(users: Seq<VerificationRecord>)
    requires
        forall|i: int, j: int|
            0 <= i < j < users.len() ==> !(#[trigger] users[j]).is_key(
                (#[trigger] users[i]).discord_id,
                users[i].yt_channel_id@,
                users[i].yt_channel_n,
            ),
    ensures
        forall|i: int, j: int|
            0 <= i < j < spec_purged(users).len() ==> !(#[trigger] spec_purged(users)[j]).is_key(
                (#[trigger] spec_purged(users)[i]).discord_id,
                spec_purged(users)[i].yt_channel_id@,
                spec_purged(users)[i].yt_channel_n,
            ),
{
    let pred = |x: VerificationRecord|
        !(x.user_yt_channel_id matches Some(c) && spec_over_paired(users, c@));
    assert forall|i: int, j: int| 0 <= i < j < spec_purged(users).len() implies !(
    #[trigger] spec_purged(users)[j]).is_key(
        (#[trigger] spec_purged(users)[i]).discord_id,
        spec_purged(users)[i].yt_channel_id@,
        spec_purged(users)[i].yt_channel_n,
    ) by {
        lemma_filter_keeps_order(users, pred, i, j);
    }
}

/// Filtering twice with a weaker predicate second changes nothing; filtering
/// twice with an incompatible predicate second leaves nothing.
proof fn lemma_filter_filter<A>(s: Seq<A>, p: spec_fn(A) -> bool, q: spec_fn(A) -> bool)
    ensures
        (forall|x: A| #[trigger] q(x) ==> p(x)) ==> s.filter(p).filter(q) == s.filter(q),
        (forall|x: A| #[trigger] q(x) ==> !p(x)) ==> s.filter(p).filter(q) == Seq::<A>::empty(),
    decreases s.len(),
{
    reveal(Seq::filter);
    if s.len() == 0 {
        assert(s.filter(p) =~= Seq::<A>::empty());
    } else {
        lemma_filter_filter(s.drop_last(), p, q);
        let rest = s.drop_last();
        if forall|x: A| #[trigger] q(x) ==> p(x) {
            if p(s.last()) {
                assert(s.filter(p) == rest.filter(p).push(s.last()));
                assert(s.filter(p).drop_last() =~= rest.filter(p));
            } else {
                assert(!q(s.last()));
                assert(s.filter(p) == rest.filter(p));
                assert(s.filter(q) == rest.filter(q));
            }
        }
        if forall|x: A| #[trigger] q(x) ==> !p(x) {
            if p(s.last()) {
                assert(!q(s.last()));
                assert(s.filter(p).drop_last() =~= rest.filter(p));
                assert(s.filter(p).last() == s.last());
            } else {
                assert(s.filter(p) == rest.filter(p));
            }
        }
    }
}

/// The over-pairing threshold: in a purge, an external account linked to at
/// most three distinct local users keeps every binding that names it, and an
/// account linked to more than three loses every binding that names it.
pub proof fn lemma_over_pairing_threshold(users: Seq<VerificationRecord>, owner: Seq<char>)
    ensures
        !spec_over_paired(users, owner) ==> spec_purged(users).filter(
            |x: VerificationRecord| spec_has_owner(x, owner),
        ) == users.filter(|x: VerificationRecord| spec_has_owner(x, owner)),
        spec_over_paired(users, owner) ==> spec_purged(users).filter(
            |x: VerificationRecord| spec_has_owner(x, owner),
        ) == Seq::<VerificationRecord>::empty(),
{
    let p = |x: VerificationRecord|
        !(x.user_yt_channel_id matches Some(c) && spec_over_paired(users, c@));
    let q = |x: VerificationRecord| spec_has_owner(x, owner);
    lemma_filter_filter(users, p, q);
    if !spec_over_paired(users, owner) {
        assert forall|x: VerificationRecord| #[trigger] q(x) implies p(x) by {
            assert(x.user_yt_channel_id matches Some(c) && c@ == owner);
        }
    } else {
        assert forall|x: VerificationRecord| #[trigger] q(x) implies !p(x) by {
            assert(x.user_yt_channel_id matches Some(c) && c@ == owner);
        }
    }
}

/// Keeping only elements that all pass the predicate changes nothing.
proof fn lemma_filter_all<A>(s: Seq<A>, pred: spec_fn(A) -> bool)
    requires
        forall|i: int| 0 <= i < s.len() ==> pred(#[trigger] s[i]),
    ensures
        s.filter(pred) == s,
    decreases s.len(),
{
    reveal(Seq::filter);
    if s.len() > 0 {
        let rest = s.drop_last();
        assert forall|i: int| 0 <= i < rest.len() implies pred(#[trigger] rest[i]) by {
            assert(rest[i] == s[i]);
        }
        lemma_filter_all(rest, pred);
        assert(s.filter(pred) =~= s);
    }
}

/// A purged state links no fewer users to an account than the original did.
proof fn lemma_owner_ids_of_purged(users: Seq<VerificationRecord>, owner: Seq<char>)
    ensures
        spec_owner_ids(spec_purged(users), owner).subset_of(spec_owner_ids(users, owner)),
{
    lemma_owner_ids(users, owner);
    lemma_owner_ids(spec_purged(users), owner);
    assert forall|d: u64| spec_owner_ids(spec_purged(users), owner).contains(d)
        implies spec_owner_ids(users, owner).contains(d) by {
        let a = choose|a: int|
            0 <= a < spec_purged(users).len() && (#[trigger] spec_purged(users)[a]).discord_id
                == d && spec_has_owner(spec_purged(users)[a], owner);
        lemma_filter_keeps_wf_and_keys(users, a);
        let i = choose|i: int| 0 <= i < users.len() && users[i] == spec_purged(users)[a];
        assert(users[i].discord_id == d && spec_has_owner(users[i], owner));
    }
}

/// The over-pairing purge is idempotent: a purged state has no over-paired
/// account left, so purging it again removes nothing.
pub proof fn lemma_purge_idempotent(users: Seq<VerificationRecord>)
    ensures
        spec_purged(spec_purged(users)) == spec_purged(users),
{
    let p1 = spec_purged(users);
    let pred1 = |x: VerificationRecord|
        !(x.user_yt_channel_id matches Some(c) && spec_over_paired(users, c@));
    let pred2 = |x: VerificationRecord|
        !(x.user_yt_channel_id matches Some(c) && spec_over_paired(p1, c@));
    assert forall|a: int| 0 <= a < p1.len() implies pred2(#[trigger] p1[a]) by {
        let x = p1[a];
        match x.user_yt_channel_id {
            Some(c) => {
                vstd::prelude::Seq::lemma_filter_pred(users, pred1, a);
                assert(!spec_over_paired(users, c@));
                lemma_owner_ids(users, c@);
                lemma_owner_ids_of_purged(users, c@);
                vstd::set_lib::lemma_len_subset(
                    spec_owner_ids(p1, c@),
                    spec_owner_ids(users, c@),
                );
            },
            None => {},
        }
    }
    lemma_filter_all(p1, pred2);
}

/// A filtered sequence is a subsequence: any two of its elements come from
/// two positions of the original in the same order.
proof fn lemma_filter_keeps_order<A>(s: Seq<A>, pred: spec_fn(A) -> bool, i: int, j: int)
    requires
        0 <= i < j < s.filter(pred).len(),
    ensures
        exists|a: int, b: int|
            0 <= a < b < s.len() && s[a] == s.filter(pred)[i] && s[b] == s.filter(pred)[j],
    decreases s.len(),
{
    reveal(Seq::filter);
    if s.len() == 0 {
    } else {
        let rest = s.drop_last();
        let f = s.filter(pred);
        if pred(s.last()) && j == f.len() - 1 {
            lemma_filter_element_of(rest, pred, i);
            let a = choose|a: int| 0 <= a < rest.len() && rest[a] == rest.filter(pred)[i];
            assert(s[a] == f[i] && s[s.len() - 1] == f[j]);
        } else {
            lemma_filter_keeps_order(rest, pred, i, j);
            let (a, b) = choose|a: int, b: int|
                0 <= a < b < rest.len() && rest[a] == rest.filter(pred)[i] && rest[b]
                    == rest.filter(pred)[j];
            assert(s[a] == f[i] && s[b] == f[j]);
        }
    }
}

} // verus!
