//! Extracting video, comment and channel ids from the platform's URLs, and
//! parsing a channel argument with its optional slot suffix. URL parsing
//! itself is the url crate's; the platform-specific extraction rules are
//! verified here over the parsed parts.

use vstd::prelude::*;
use vstd::string::StrSliceExecFns;
use crate::text::{contains_str, spec_contains, spec_find_char, find_char, lemma_find_char_bounds, str_eq};

verus! {

/// A text is treated as a URL when it holds both a colon and a slash.
pub open spec fn spec_is_url(s: Seq<char>) -> bool {
    spec_contains(s, ":"@) && spec_contains(s, "/"@)
}

/// Does this argument look like a URL rather than a bare id?
pub fn is_url(maybe_url: &str) -> (r: bool)
    ensures
        r == spec_is_url(maybe_url@),
{
    contains_str(maybe_url, ":") && contains_str(maybe_url, "/")
}

/// What url::Url::parse followed by Url::domain yields on a text: the host
/// name when the text parses as a URL whose host is a domain, nothing
/// otherwise.
pub uninterp spec fn url_domain_of(s: Seq<char>) -> Option<Seq<char>>;

/// What url::Url::parse followed by Url::path_segments yields on a text: the
/// path split at slashes when the text parses as a URL with a path, nothing
/// otherwise.
pub uninterp spec fn url_segments_of(s: Seq<char>) -> Option<Seq<Seq<char>>>;

/// What url::Url::parse followed by Url::query_pairs yields on a text: the
/// decoded key-value pairs of the query string, in order, when the text
/// parses as a URL, nothing otherwise.
pub uninterp spec fn url_query_of(s: Seq<char>) -> Option<Seq<(Seq<char>, Seq<char>)>>;

/// Relies on url::Url::parse and Url::domain: both depend on the text alone.
#[verifier::external_body]
fn url_domain(s: &str) -> (r: Option<String>)
    ensures
        r.deep_view() == url_domain_of(s@),
{
    let u = url::Url::parse(s).ok()?;
    let d = u.domain()?.to_string();
    Some(d)
}

/// Relies on url::Url::parse and Url::path_segments: both depend on the text
/// alone.
#[verifier::external_body]
fn url_path_segments(s: &str) -> (r: Option<Vec<String>>)
    ensures
        r.deep_view() == url_segments_of(s@),
{
    let u = url::Url::parse(s).ok()?;
    let segs = u.path_segments()?;
    Some(segs.map(|x| x.to_string()).collect())
}

/// Relies on url::Url::parse and Url::query_pairs: both depend on the text
/// alone.
#[verifier::external_body]
fn url_query_pairs(s: &str) -> (r: Option<Vec<(String, String)>>)
    ensures
        r.deep_view() == url_query_of(s@),
{
    let u = url::Url::parse(s).ok()?;
    Some(u.query_pairs().map(|(k, v)| (k.to_string(), v.to_string())).collect())
}

/// The last value of the given query key, if any.
pub open spec fn spec_last_query_value(q: Seq<(Seq<char>, Seq<char>)>, key: Seq<char>) -> Option<
    Seq<char>,
>
    decreases q.len(),
{
    if q.len() == 0 {
        None
    } else if q.last().0 == key {
        Some(q.last().1)
    } else {
        spec_last_query_value(q.drop_last(), key)
    }
}

/// The video and comment id a watch or share URL names, computed from the
/// URL's parsed parts: a `youtu.be` share link's single path segment is the
/// video id; an `embed` path's second segment is the video id; a `watch`
/// path takes the video id from the last `v` query key and the comment id
/// from the last `lc` key. Anything else names no video.
pub open spec fn spec_extract_video_comment(
    dom: Option<Seq<char>>,
    segs: Option<Seq<Seq<char>>>,
    query: Option<Seq<(Seq<char>, Seq<char>)>>,
) -> Option<(Seq<char>, Option<Seq<char>>)> {
    match dom {
        None => None,
        Some(host) => {
            if host == "youtu.be"@ {
                match segs {
                    None => None,
                    Some(sg) => {
                        if sg.len() == 1 {
                            Some((sg[0], None))
                        } else {
                            None
                        }
                    },
                }
            } else if host == "www.youtube.com"@ || host == "youtube.com"@ {
                match segs {
                    None => None,
                    Some(sg) => {
                        if sg.len() == 0 {
                            None
                        } else if sg[0] == "embed"@ {
                            if sg.len() == 2 {
                                Some((sg[1], None))
                            } else {
                                None
                            }
                        } else if sg[0] == "watch"@ {
                            if sg.len() != 1 {
                                None
                            } else {
                                match query {
                                    None => None,
                                    Some(q) => {
                                        match spec_last_query_value(q, "v"@) {
                                            None => None,
                                            Some(v) => Some(
                                                (v, spec_last_query_value(q, "lc"@)),
                                            ),
                                        }
                                    },
                                }
                            }
                        } else {
                            None
                        }
                    },
                }
            } else {
                None
            }
        },
    }
}

fn last_query_value(q: &Vec<(String, String)>, key: &str) -> (r: Option<String>)
    ensures
        r.deep_view() == spec_last_query_value(q.deep_view(), key@),
{
    let len = q.len();
    proof {
        assert(q.deep_view().take(len as int) =~= q.deep_view());
    }
    let mut i: usize = len;
    while i > 0
        invariant
            i <= len,
            len == q@.len(),
            q.deep_view().len() == len,
            spec_last_query_value(q.deep_view(), key@) == spec_last_query_value(
                q.deep_view().take(i as int),
                key@,
            ),
        decreases i,
    {
        proof {
            assert(q.deep_view().take(i as int).last() == q.deep_view()[i - 1]);
            assert(q.deep_view().take(i as int).drop_last() =~= q.deep_view().take(i - 1));
        }
        if str_eq(q[i - 1].0.as_str(), key) {
            return Some(q[i - 1].1.clone());
        }
        i = i - 1;
    }
    proof {
        assert(q.deep_view().take(0) =~= Seq::<(Seq<char>, Seq<char>)>::empty());
    }
    None
}

/// The parts of a video-or-share URL: the video id and, when present, the
/// comment id, or nothing when the URL names no video.
pub fn extract_video_comment_id(video_url: &str) -> (r: Option<(String, Option<String>)>)
    ensures
        ({
            let expected = spec_extract_video_comment(
                url_domain_of(video_url@),
                url_segments_of(video_url@),
                url_query_of(video_url@),
            );
            match r {
                Some(p) => expected matches Some(e) && p.0@ == e.0 && p.1.deep_view() == e.1,
                None => expected is None,
            }
        }),
{
    let host = match url_domain(video_url) {
        Some(h) => h,
        None => {
            return None;
        },
    };
    if str_eq(host.as_str(), "youtu.be") {
        let segs = match url_path_segments(video_url) {
            Some(sg) => sg,
            None => {
                return None;
            },
        };
        if segs.len() == 1 {
            proof {
                assert(segs.deep_view()[0] == segs@[0]@);
            }
            return Some((segs[0].clone(), None));
        }
        return None;
    }
    if !(str_eq(host.as_str(), "www.youtube.com") || str_eq(host.as_str(), "youtube.com")) {
        return None;
    }
    let segs = match url_path_segments(video_url) {
        Some(sg) => sg,
        None => {
            return None;
        },
    };
    if segs.len() == 0 {
        return None;
    }
    proof {
        assert(segs.deep_view()[0] == segs@[0]@);
    }
    if str_eq(segs[0].as_str(), "embed") {
        if segs.len() == 2 {
            proof {
                assert(segs.deep_view()[1] == segs@[1]@);
            }
            return Some((segs[1].clone(), None));
        }
        return None;
    }
    if str_eq(segs[0].as_str(), "watch") {
        if segs.len() != 1 {
            return None;
        }
        let query = match url_query_pairs(video_url) {
            Some(q) => q,
            None => {
                return None;
            },
        };
        let video = match last_query_value(&query, "v") {
            Some(v) => v,
            None => {
                return None;
            },
        };
        let comment = last_query_value(&query, "lc");
        return Some((video, comment));
    }
    None
}

/// The channel id a channel URL names, computed from the URL's parsed parts:
/// the segment after a leading `channel` path segment on the platform's
/// domain.
pub open spec fn spec_extract_channel(
    dom: Option<Seq<char>>,
    segs: Option<Seq<Seq<char>>>,
) -> Option<Seq<char>> {
    match dom {
        None => None,
        Some(host) => {
            if host == "www.youtube.com"@ || host == "youtube.com"@ {
                match segs {
                    None => None,
                    Some(sg) => {
                        if sg.len() >= 2 && sg[0] == "channel"@ {
                            Some(sg[1])
                        } else {
                            None
                        }
                    },
                }
            } else {
                None
            }
        },
    }
}

/// The channel id a channel URL names, or nothing when the URL names none.
pub fn extract_channel_id(channel_url: &str) -> (r: Option<String>)
    ensures
        r.deep_view() == spec_extract_channel(
            url_domain_of(channel_url@),
            url_segments_of(channel_url@),
        ),
{
    let host = match url_domain(channel_url) {
        Some(h) => h,
        None => {
            return None;
        },
    };
    if !(str_eq(host.as_str(), "www.youtube.com") || str_eq(host.as_str(), "youtube.com")) {
        return None;
    }
    let segs = match url_path_segments(channel_url) {
        Some(sg) => sg,
        None => {
            return None;
        },
    };
    if segs.len() >= 2 {
        proof {
            assert(segs.deep_view()[0] == segs@[0]@);
            assert(segs.deep_view()[1] == segs@[1]@);
        }
        if str_eq(segs[0].as_str(), "channel") {
            return Some(segs[1].clone());
        }
    }
    None
}

/// A URL argument with a leading `<` stripped and then a trailing `>`
/// stripped; when the prefix was stripped but no `>` follows, the original
/// text stands.
pub open spec fn spec_strip_angles(s: Seq<char>) -> Seq<char> {
    let a = if s.len() > 0 && s[0] == '<' {
        s.subrange(1, s.len() as int)
    } else {
        s
    };
    if a.len() > 0 && a.last() == '>' {
        a.subrange(0, a.len() - 1)
    } else {
        s
    }
}

/// A decimal digit.
pub open spec fn spec_is_digit(c: char) -> bool {
    '0' <= c && c <= '9'
}

/// The value of a decimal digit.
pub open spec fn spec_digit_val(c: char) -> int {
    (c as int) - ('0' as int)
}

/// Every character is a decimal digit.
pub open spec fn spec_all_digits(s: Seq<char>) -> bool {
    forall|i: int| 0 <= i < s.len() ==> spec_is_digit(#[trigger] s[i])
}

/// The value of a digit string.
pub open spec fn spec_digits_value(s: Seq<char>) -> int
    decreases s.len(),
{
    if s.len() == 0 {
        0
    } else {
        spec_digits_value(s.drop_last()) * 10 + spec_digit_val(s.last())
    }
}

proof fn lemma_digits_value_nonneg(s: Seq<char>)
    requires
        spec_all_digits(s),
    ensures
        spec_digits_value(s) >= 0,
    decreases s.len(),
{
    if s.len() > 0 {
        assert(spec_all_digits(s.drop_last())) by {
            assert(forall|i: int| 0 <= i < s.len() - 1 ==> s.drop_last()[i] == s[i]);
        }
        lemma_digits_value_nonneg(s.drop_last());
    }
}

/// Parse a slot suffix: a non-empty digit string below 100.
fn parse_slot(s: &str) -> (r: Option<i64>)
    ensures
        ({
            let ok = s@.len() > 0 && spec_all_digits(s@) && spec_digits_value(s@) < 100;
            match r {
                Some(v) => ok && v == spec_digits_value(s@),
                None => !ok,
            }
        }),
{
    let len = s.unicode_len();
    if len == 0 {
        return None;
    }
    let mut acc: i64 = 0;
    let mut i: usize = 0;
    while i < len
        invariant
            i <= len,
            len == s@.len(),
            spec_all_digits(s@.take(i as int)),
            spec_digits_value(s@.take(i as int)) >= 0,
            if spec_digits_value(s@.take(i as int)) <= 999 {
                acc == spec_digits_value(s@.take(i as int))
            } else {
                acc == 1000
            },
            0 <= acc <= 1000,
        decreases len - i,
    {
        let c = s.get_char(i);
        if !('0' <= c && c <= '9') {
            return None;
        }
        let d = (c as u32 - '0' as u32) as i64;
        proof {
            assert(s@.take(i + 1).drop_last() =~= s@.take(i as int));
            assert(s@.take(i + 1).last() == s@[i as int]);
            assert(d == spec_digit_val(s@[i as int]));
        }
        let candidate = acc * 10 + d;
        acc = if candidate > 999 {
            1000
        } else {
            candidate
        };
        i = i + 1;
    }
    proof {
        assert(s@.take(len as int) =~= s@);
    }
    if acc < 100 {
        Some(acc)
    } else {
        None
    }
}

/// Errors of parsing a channel argument.
#[derive(Clone, Copy, Debug, PartialEq, Eq, Structural)]
pub enum ChannelStrError {
    /// The argument looks like a URL but names no channel.
    BadUrl,
    /// The slot suffix after the quote is not a number below 100.
    BadSlot,
}

/// What a channel argument resolves to: a URL-shaped argument is stripped of
/// angle brackets and must name a channel; then an optional `'` suffix picks
/// the slot — absent means slot 0, a bare quote means slot 1, and a digit
/// string below 100 names the slot.
pub open spec fn spec_parse_channel(s: Seq<char>) -> Result<(Seq<char>, int), ChannelStrError> {
    let base_r: Result<Seq<char>, ChannelStrError> = if spec_is_url(s) {
        match spec_extract_channel(
            url_domain_of(spec_strip_angles(s)),
            url_segments_of(spec_strip_angles(s)),
        ) {
            Some(c) => Ok(c),
            None => Err(ChannelStrError::BadUrl),
        }
    } else {
        Ok(s)
    };
    match base_r {
        Err(e) => Err(e),
        Ok(base) => {
            let qi = spec_find_char(base, 0, '\'');
            if qi == base.len() {
                Ok((base, 0))
            } else {
                let chan = base.subrange(0, qi);
                let n_str = base.subrange(qi + 1, base.len() as int);
                if n_str.len() == 0 {
                    Ok((chan, 1))
                } else if spec_all_digits(n_str) && spec_digits_value(n_str) < 100 {
                    Ok((chan, spec_digits_value(n_str)))
                } else {
                    Err(ChannelStrError::BadSlot)
                }
            }
        },
    }
}

/// Parse a channel argument into the channel id and the slot index.
pub fn parse_channel_str(yt_channel_id: &str) -> (r: Result<(String, i64), ChannelStrError>)
    ensures
        match r {
            Ok(p) => spec_parse_channel(yt_channel_id@) matches Ok(q) && p.0@ == q.0 && p.1 == q.1
                && 0 <= p.1 < 100,
            Err(e) => spec_parse_channel(yt_channel_id@) matches Err(e2) && e == e2,
        },
{
    let base: String = if is_url(yt_channel_id) {
        let url = strip_angles(yt_channel_id);
        match extract_channel_id(url.as_str()) {
            Some(c) => c,
            None => {
                return Err(ChannelStrError::BadUrl);
            },
        }
    } else {
        yt_channel_id.to_owned()
    };
    let blen = base.as_str().unicode_len();
    let qi = find_char(base.as_str(), 0, '\'');
    if qi == blen {
        return Ok((base, 0));
    }
    let chan = base.as_str().substring_char(0, qi).to_owned();
    let n_str = base.as_str().substring_char(qi + 1, blen);
    if n_str.is_empty() {
        return Ok((chan, 1));
    }
    match parse_slot(n_str) {
        Some(v) => {
            proof {
                lemma_digits_value_nonneg(n_str@);
            }
            Ok((chan, v))
        },
        None => Err(ChannelStrError::BadSlot),
    }
}

/// Strip one pair of angle brackets around a pasted URL.
pub fn strip_angles(s: &str) -> (r: String)
    ensures
        r@ == spec_strip_angles(s@),
{
    let len = s.unicode_len();
    let stripped_prefix = len > 0 && s.get_char(0) == '<';
    let a = if stripped_prefix {
        s.substring_char(1, len)
    } else {
        s
    };
    let alen = if stripped_prefix {
        len - 1
    } else {
        len
    };
    if alen > 0 && a.get_char(alen - 1) == '>' {
        a.substring_char(0, alen - 1).to_owned()
    } else {
        s.to_owned()
    }
}

} // verus!
