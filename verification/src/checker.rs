//! Membership check adapter: identifier validation, the checker's command
//! line, and the parse of its two-line output into a channel record plus a
//! membership verdict.
//!
//! The checker itself is a separate program; the application invokes it and
//! hands its standard output here as one text.

use vstd::prelude::*;
use vstd::string::StringExecFns;
use crate::text::{spec_line1, spec_line2, split_two_lines};

verus! {

/// Verdict of one membership check, as reported by the external checker.
#[derive(Debug)]
pub enum MembershipStatus {
    /// The comment exists and its author is a member.
    Member { channel_id: String, user_channel_id: String, text: String },
    /// The comment exists and its author is not a member.
    Not { channel_id: String, user_channel_id: String, text: String },
    /// The comment was not found.
    NotFound,
}

/// Abstract value of a `MembershipStatus`.
pub enum MembershipStatusV {
    Member { channel_id: Seq<char>, user_channel_id: Seq<char>, text: Seq<char> },
    Not { channel_id: Seq<char>, user_channel_id: Seq<char>, text: Seq<char> },
    NotFound,
}

impl DeepView for MembershipStatus {
    type V = MembershipStatusV;

    open spec fn deep_view(&self) -> MembershipStatusV {
        match self {
            MembershipStatus::Member { channel_id, user_channel_id, text } => {
                MembershipStatusV::Member {
                    channel_id: channel_id@,
                    user_channel_id: user_channel_id@,
                    text: text@,
                }
            },
            MembershipStatus::Not { channel_id, user_channel_id, text } => {
                MembershipStatusV::Not {
                    channel_id: channel_id@,
                    user_channel_id: user_channel_id@,
                    text: text@,
                }
            },
            MembershipStatus::NotFound => MembershipStatusV::NotFound,
        }
    }
}

/// The channel that owns the checked video, as reported on the checker's
/// first output line.
#[derive(Debug)]
pub struct VideoInfo {
    pub channel_id: String,
    pub channel_name: String,
}

/// Abstract value of a `VideoInfo`.
pub struct VideoInfoV {
    pub channel_id: Seq<char>,
    pub channel_name: Seq<char>,
}

impl DeepView for VideoInfo {
    type V = VideoInfoV;

    open spec fn deep_view(&self) -> VideoInfoV {
        VideoInfoV { channel_id: self.channel_id@, channel_name: self.channel_name@ }
    }
}

/// Errors of the adapter: ids that are not identifier-safe are rejected
/// locally; output that does not follow the two-line protocol counts as a
/// failed (retryable) external call.
#[derive(Clone, Copy, Debug, PartialEq, Eq, Structural)]
pub enum AdapterError {
    InvalidInput,
    AdapterFailure,
}

/// A character that may appear in a video or comment identifier.
pub open spec fn spec_id_char(c: char) -> bool {
    ('a' <= c && c <= 'z') || ('A' <= c && c <= 'Z') || ('0' <= c && c <= '9') || c == '-'
        || c == '_' || c == '.'
}

/// The whole identifier consists of identifier-safe characters.
pub open spec fn spec_id_safe(s: Seq<char>) -> bool {
    forall|i: int| 0 <= i < s.len() ==> spec_id_char(#[trigger] s[i])
}

/// Check that an identifier contains only identifier-safe characters
/// (letters, digits, `-`, `_`, `.`; `.` appears in reply comment ids).
pub fn check_id(id: &str) -> (r: bool)
    ensures
        r == spec_id_safe(id@),
{
    let len = id.unicode_len();
    let mut i: usize = 0;
    while i < len
        invariant
            i <= len,
            len == id@.len(),
            forall|k: int| 0 <= k < i ==> spec_id_char(#[trigger] id@[k]),
        decreases len - i,
    {
        let c = id.get_char(i);
        let ok = ('a' <= c && c <= 'z') || ('A' <= c && c <= 'Z') || ('0' <= c && c <= '9')
            || c == '-' || c == '_' || c == '.';
        if !ok {
            return false;
        }
        i = i + 1;
    }
    true
}

/// Validate the id pair of one check; rejected ids never reach the external
/// checker.
pub fn validate_ids(video_id: &str, comment_id: &str) -> (r: Result<(), AdapterError>)
    ensures
        r is Ok <==> spec_id_safe(video_id@) && spec_id_safe(comment_id@),
        r is Err ==> r->Err_0 == AdapterError::InvalidInput,
{
    if !check_id(video_id) {
        return Err(AdapterError::InvalidInput);
    }
    if !check_id(comment_id) {
        return Err(AdapterError::InvalidInput);
    }
    Ok(())
}

/// The combined id argument handed to the checker: `<video>&lc=<comment>`.
pub fn checker_id_arg(video_id: &str, comment_id: &str) -> (r: String)
    ensures
        r@ == video_id@ + "&lc="@ + comment_id@,
{
    let mut out = video_id.to_owned();
    out.append("&lc=");
    out.append(comment_id);
    out
}

/// The fixed argument tail of one checker invocation: the id argument, a
/// page start of 0, a limit of 1, and the session cookie.
pub fn checker_cli_args(video_id: &str, comment_id: &str, cookie: &str) -> (r: Vec<String>)
    ensures
        r@.len() == 8,
        r@[0]@ == "--id"@,
        r@[1]@ == video_id@ + "&lc="@ + comment_id@,
        r@[2]@ == "-s"@,
        r@[3]@ == "0"@,
        r@[4]@ == "-l"@,
        r@[5]@ == "1"@,
        r@[6]@ == "--cookie"@,
        r@[7]@ == cookie@,
{
    let mut out: Vec<String> = Vec::new();
    out.push("--id".to_owned());
    out.push(checker_id_arg(video_id, comment_id));
    out.push("-s".to_owned());
    out.push("0".to_owned());
    out.push("-l".to_owned());
    out.push("1".to_owned());
    out.push("--cookie".to_owned());
    out.push(cookie.to_owned());
    out
}

/// What the first output record parses to: the owning channel's id and
/// display name, or nothing when the record is not of that shape.
pub uninterp spec fn video_record_of(s: Seq<char>) -> Option<(Seq<char>, Seq<char>)>;

/// What the second output record parses to: the membership flag, the
/// commenter's account id, the id of the channel the comment sits on, and the
/// comment text; or nothing when the record is not of that shape.
pub uninterp spec fn comment_record_of(s: Seq<char>) -> Option<(bool, Seq<char>, Seq<char>, Seq<char>)>;

/// Relies on serde_json::from_str and the Value accessors: parsing a fixed
/// text yields a value determined by that text alone.
#[verifier::external_body]
fn parse_video_record(s: &str) -> (r: Option<(String, String)>)
    ensures
        r.deep_view() == video_record_of(s@),
{
    let v: serde_json::Value = serde_json::from_str(s).ok()?;
    let channel_id = v.get("channel_id")?.as_str()?.to_string();
    let channel_name = v.get("channel_name")?.as_str()?.to_string();
    Some((channel_id, channel_name))
}

/// Relies on serde_json::from_str and the Value accessors: parsing a fixed
/// text yields a value determined by that text alone. In the record the
/// `channel_id` field names the commenter's account and the `channel` field
/// names the channel the comment sits on.
#[verifier::external_body]
fn parse_comment_record(s: &str) -> (r: Option<(bool, String, String, String)>)
    ensures
        r.deep_view() == comment_record_of(s@),
{
    let v: serde_json::Value = serde_json::from_str(s).ok()?;
    let is_member = v.get("is_member")?.as_bool()?;
    let commenter = v.get("channel_id")?.as_str()?.to_string();
    let channel = v.get("channel")?.as_str()?.to_string();
    let text = v.get("text")?.as_str()?.to_string();
    Some((is_member, commenter, channel, text))
}

/// What the parse of a full checker output yields: the first line must be a
/// channel record; a missing or empty second line means the comment was not
/// found; otherwise the second line must be a comment record, whose
/// membership flag picks the verdict.
pub open spec fn spec_parse_checker(out: Seq<char>) -> Result<(VideoInfoV, MembershipStatusV), AdapterError> {
    match video_record_of(spec_line1(out)) {
        None => Err(AdapterError::AdapterFailure),
        Some(rec) => {
            let info = VideoInfoV { channel_id: rec.0, channel_name: rec.1 };
            let l2 = spec_line2(out);
            if l2.len() == 0 {
                Ok((info, MembershipStatusV::NotFound))
            } else {
                match comment_record_of(l2) {
                    None => Err(AdapterError::AdapterFailure),
                    Some(crec) => {
                        let status = if crec.0 {
                            MembershipStatusV::Member {
                                channel_id: crec.2,
                                user_channel_id: crec.1,
                                text: crec.3,
                            }
                        } else {
                            MembershipStatusV::Not {
                                channel_id: crec.2,
                                user_channel_id: crec.1,
                                text: crec.3,
                            }
                        };
                        Ok((info, status))
                    },
                }
            }
        },
    }
}

/// Output with no second line parses to the not-found verdict, never to an
/// error, whenever the first line is a channel record.
pub proof fn lemma_no_second_line_is_not_found(out: Seq<char>)
    requires
        video_record_of(spec_line1(out)) is Some,
        spec_line2(out).len() == 0,
    ensures
        spec_parse_checker(out) matches Ok(p) && p.1 == MembershipStatusV::NotFound,
{
}

/// Parse one checker output into the owning channel's record and the
/// membership verdict.
pub fn parse_checker_output(out: &str) -> (r: Result<(VideoInfo, MembershipStatus), AdapterError>)
    ensures
        ({
            let expected = spec_parse_checker(out@);
            match r {
                Ok(p) => expected matches Ok(e) && p.0.deep_view() == e.0 && p.1.deep_view()
                    == e.1,
                Err(err) => expected matches Err(e) && err == e,
            }
        }),
{
    let (line1, line2) = split_two_lines(out);
    let video = match parse_video_record(line1.as_str()) {
        None => {
            return Err(AdapterError::AdapterFailure);
        },
        Some(v) => v,
    };
    let info = VideoInfo { channel_id: video.0, channel_name: video.1 };
    if line2.as_str().is_empty() {
        return Ok((info, MembershipStatus::NotFound));
    }
    let crec = match parse_comment_record(line2.as_str()) {
        None => {
            return Err(AdapterError::AdapterFailure);
        },
        Some(c) => c,
    };
    let status = if crec.0 {
        MembershipStatus::Member { channel_id: crec.2, user_channel_id: crec.1, text: crec.3 }
    } else {
        MembershipStatus::Not { channel_id: crec.2, user_channel_id: crec.1, text: crec.3 }
    };
    Ok((info, status))
}

} // verus!
