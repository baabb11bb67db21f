//! Per-binding status reporting: the snapshot a user is shown for each of
//! their bindings, and its rendering as one chat message.

use vstd::prelude::*;
use vstd::string::{StrSliceExecFns, StringExecFns};
use crate::store::{Store, VerificationRecord};

verus! {

/// The digit characters, indexable by value.
pub open spec fn spec_digit_chars() -> Seq<char> {
    "0123456789"@
}

/// The decimal rendering of a non-negative number.
pub open spec fn spec_decimal(n: int) -> Seq<char>
    decreases n when n >= 0
{
    if n < 10 {
        seq![spec_digit_chars()[if 0 <= n < 10 {
            n
        } else {
            0
        }]]
    } else {
        spec_decimal(n / 10).push(spec_digit_chars()[n % 10])
    }
}

/// Render a number in decimal.
pub fn u64_to_string(n: u64) -> (r: String)
    ensures
        r@ == spec_decimal(n as int),
    decreases n,
{
    let digit_chars = "0123456789";
    proof {
        reveal_strlit("0123456789");
    }
    if n < 10 {
        let d = n as usize;
        let piece = digit_chars.substring_char(d, d + 1);
        proof {
            assert(piece@ =~= spec_decimal(n as int));
        }
        piece.to_owned()
    } else {
        let mut s = u64_to_string(n / 10);
        let d = (n % 10) as usize;
        let piece = digit_chars.substring_char(d, d + 1);
        s.append(piece);
        proof {
            assert(s@ =~= spec_decimal(n as int));
        }
        s
    }
}

/// One binding's status snapshot, as shown to its user.
pub struct UserStatus {
    pub yt_channel_id: String,
    pub yt_channel_n: i64,
    pub yt_video_id: Option<String>,
    pub yt_comment_id: Option<String>,
    pub token: String,
    pub last_verified: Option<i64>,
    pub last_channel_verified: Option<i64>,
    pub last_checked: Option<i64>,
    pub failed_checks: u64,
    pub is_verified: bool,
    pub channel_verified: bool,
    pub channel_name: Option<String>,
}

impl UserStatus {
    /// The timestamps are unix seconds and the slot index is a slot index.
    pub open spec fn wf(self) -> bool {
        &&& 0 <= self.yt_channel_n < 100
        &&& (self.last_verified matches Some(t) ==> 0 <= t)
        &&& (self.last_channel_verified matches Some(t) ==> 0 <= t)
        &&& (self.last_checked matches Some(t) ==> 0 <= t)
    }
}

/// One timestamp line of the status message.
pub open spec fn spec_date_line(label: Seq<char>, d: Option<i64>) -> Seq<char> {
    match d {
        Some(t) => "`  "@ + label + ":` <t:"@ + spec_decimal(t as int) + ">\n"@,
        None => "`  "@ + label + ":` -\n"@,
    }
}

/// The head of the status message: the cached channel name when one is
/// known, then the channel link with the slot suffix.
pub open spec fn spec_status_head(s: UserStatus) -> Seq<char> {
    (match s.channel_name {
        Some(n) => n@ + "\n`  `"@,
        None => Seq::empty(),
    }) + "<https://www.youtube.com/channel/"@ + s.yt_channel_id@ + ">"@ + (if s.yt_channel_n == 0 {
        Seq::empty()
    } else if s.yt_channel_n == 1 {
        " '"@
    } else {
        " '"@ + spec_decimal(s.yt_channel_n as int)
    }) + "\n"@
}

/// The middle of the status message: the proof-comment link or a
/// missing-comment note, then the token line.
pub open spec fn spec_status_body(s: UserStatus) -> Seq<char> {
    (match (s.yt_video_id, s.yt_comment_id) {
        (Some(v), Some(c)) => "`  `<https://www.youtube.com/watch?v="@ + v@ + "&lc="@ + c@
            + ">\n"@ + "```diff\n"@,
        _ => "```diff\n"@ + "- no comment set\n"@,
    }) + "  token: "@ + s.token@ + "\n"@
}

/// The verdict of the status message: the verification line, the failure
/// count when non-zero, and the closing fence.
pub open spec fn spec_status_verdict(s: UserStatus) -> Seq<char> {
    (if s.is_verified && s.channel_verified {
        "+ membership verified\n"@
    } else if s.is_verified {
        "+ membership verified (no token)\n"@
    } else if s.channel_verified {
        "+ channel verified\n"@
    } else {
        "- not verified\n"@
    }) + (if s.failed_checks != 0 {
        "- failed_checks: "@ + spec_decimal(s.failed_checks as int)
    } else {
        Seq::empty()
    }) + "```"@
}

/// The three timestamp lines of the status message.
pub open spec fn spec_status_dates(s: UserStatus) -> Seq<char> {
    spec_date_line("verified member "@, s.last_verified) + spec_date_line(
        "verified comment"@,
        s.last_channel_verified,
    ) + spec_date_line("checked  fi     "@, s.last_checked)
}

/// The whole status message of one binding: the cached channel name when one
/// is known, the channel link with the slot suffix, the proof-comment link or
/// a missing-comment note, the token, the verification verdict, the failure
/// count when non-zero, and the three timestamps.
pub open spec fn spec_status_message(s: UserStatus) -> Seq<char> {
    spec_status_head(s) + spec_status_body(s) + spec_status_verdict(s) + spec_status_dates(s)
}

fn append_date_line(out: &mut String, label: &str, d: Option<i64>)
    requires
        d matches Some(t) ==> t >= 0,
    ensures
        final(out)@ == old(out)@ + spec_date_line(label@, d),
{
    out.append("`  ");
    out.append(label);
    match d {
        Some(t) => {
            out.append(":` <t:");
            let ts = u64_to_string(t as u64);
            out.append(ts.as_str());
            out.append(">\n");
        },
        None => {
            out.append(":` -\n");
        },
    }
}

impl UserStatus {
    /// Render the status message for this binding.
    #[verifier::rlimit(60)]
    pub fn format_message(&self) -> (r: String)
        requires
            self.wf(),
        ensures
            r@ == spec_status_message(*self),
    {
        let mut out = String::new();
        match &self.channel_name {
            Some(n) => {
                out.append(n.as_str());
                out.append("\n`  `");
            },
            None => {},
        }
        out.append("<https://www.youtube.com/channel/");
        out.append(self.yt_channel_id.as_str());
        out.append(">");
        if self.yt_channel_n == 0 {
        } else if self.yt_channel_n == 1 {
            out.append(" '");
        } else {
            out.append(" '");
            let ns = u64_to_string(self.yt_channel_n as u64);
            out.append(ns.as_str());
        }
        out.append("\n");
        proof {
            assert(out@ =~= spec_status_head(*self));
        }
        match (&self.yt_video_id, &self.yt_comment_id) {
            (Some(v), Some(c)) => {
                out.append("`  `<https://www.youtube.com/watch?v=");
                out.append(v.as_str());
                out.append("&lc=");
                out.append(c.as_str());
                out.append(">\n");
                out.append("```diff\n");
            },
            _ => {
                out.append("```diff\n");
                out.append("- no comment set\n");
            },
        }
        out.append("  token: ");
        out.append(self.token.as_str());
        out.append("\n");
        proof {
            assert(out@ =~= spec_status_head(*self) + spec_status_body(*self));
        }
        if self.is_verified && self.channel_verified {
            out.append("+ membership verified\n");
        } else if self.is_verified {
            out.append("+ membership verified (no token)\n");
        } else if self.channel_verified {
            out.append("+ channel verified\n");
        } else {
            out.append("- not verified\n");
        }
        if self.failed_checks != 0 {
            out.append("- failed_checks: ");
            let fs = u64_to_string(self.failed_checks);
            out.append(fs.as_str());
        }
        out.append("```");
        proof {
            assert(out@ =~= spec_status_head(*self) + spec_status_body(*self)
                + spec_status_verdict(*self));
        }
        append_date_line(&mut out, "verified member ", self.last_verified);
        append_date_line(&mut out, "verified comment", self.last_channel_verified);
        append_date_line(&mut out, "checked  fi     ", self.last_checked);
        proof {
            assert(out@ =~= spec_status_message(*self));
        }
        out
    }
}

/// The status-freshness window: a membership counts as currently verified
/// for this many seconds (3 days).
pub open spec fn spec_status_window() -> int {
    259200
}

/// The status snapshot of one record at one moment.
pub open spec fn spec_status_of(rec: VerificationRecord, now: int) -> UserStatus {
    UserStatus {
        yt_channel_id: rec.yt_channel_id,
        yt_channel_n: rec.yt_channel_n,
        yt_video_id: rec.yt_video_id,
        yt_comment_id: rec.yt_comment_id,
        token: rec.token,
        last_verified: rec.last_verified,
        last_channel_verified: rec.last_channel_verified,
        last_checked: rec.last_checked,
        failed_checks: rec.failed_checks as u64,
        is_verified: rec.last_verified matches Some(t) && now - t < spec_status_window(),
        channel_verified: rec.last_channel_verified is Some,
        channel_name: rec.channel_name,
    }
}

/// The status snapshots of one user's bindings, in store order.
pub open spec fn spec_statuses(users: Seq<VerificationRecord>, user: u64, now: int) -> Seq<
    UserStatus,
>
    decreases users.len(),
{
    if users.len() == 0 {
        Seq::empty()
    } else {
        let rest = spec_statuses(users.drop_last(), user, now);
        if users.last().discord_id == user {
            rest.push(spec_status_of(users.last(), now))
        } else {
            rest
        }
    }
}

/// The status of every binding of one user.
pub fn get_statuses(store: &Store, user_id: u64, now: i64) -> (r: Vec<UserStatus>)
    requires
        store.wf(),
        now >= 0,
    ensures
        r@ == spec_statuses(store.users@, user_id, now as int),
        forall|i: int| 0 <= i < r@.len() ==> (#[trigger] r@[i]).wf(),
{
    let len = store.users.len();
    let mut out: Vec<UserStatus> = Vec::new();
    let mut i: usize = 0;
    while i < len
        invariant
            i <= len,
            len == store.users@.len(),
            store.wf(),
            now >= 0,
            out@ == spec_statuses(store.users@.take(i as int), user_id, now as int),
            forall|k: int| 0 <= k < out@.len() ==> (#[trigger] out@[k]).wf(),
        decreases len - i,
    {
        proof {
            assert(store.users@.take(i + 1).drop_last() =~= store.users@.take(i as int));
            assert(store.users@.take(i + 1).last() == store.users@[i as int]);
        }
        let rec = &store.users[i];
        if rec.discord_id == user_id {
            let fresh = match rec.last_verified {
                Some(t) => now - t < 259200,
                None => false,
            };
            let status = UserStatus {
                yt_channel_id: rec.yt_channel_id.clone(),
                yt_channel_n: rec.yt_channel_n,
                yt_video_id: crate::store::clone_opt_string(&rec.yt_video_id),
                yt_comment_id: crate::store::clone_opt_string(&rec.yt_comment_id),
                token: rec.token.clone(),
                last_verified: rec.last_verified,
                last_channel_verified: rec.last_channel_verified,
                last_checked: rec.last_checked,
                failed_checks: rec.failed_checks as u64,
                is_verified: fresh,
                channel_verified: rec.last_channel_verified.is_some(),
                channel_name: crate::store::clone_opt_string(&rec.channel_name),
            };
            out.push(status);
        }
        i = i + 1;
    }
    proof {
        assert(store.users@.take(len as int) =~= store.users@);
    }
    out
}

} // verus!
