use member_verify::limiter::RateLimiter;
use member_verify::resolver::ChannelCache;
use member_verify::text::{contains_str, split_two_lines, str_eq};
use member_verify::url_parse::{
    extract_channel_id, extract_video_comment_id, is_url, parse_channel_str, strip_angles,
    ChannelStrError,
};
use member_verify::util::{from_i, gen_token, gen_uuid, to_i};

#[test]
fn id_conversion_round_trips() {
    assert_eq!(to_i(0), 0);
    assert_eq!(to_i(u64::MAX), -1);
    assert_eq!(from_i(-1), u64::MAX);
    assert_eq!(from_i(to_i(12345678901234567890)), 12345678901234567890);
    assert_eq!(to_i(from_i(-42)), -42);
}

#[test]
fn tokens_are_long_and_alphabetic() {
    let alphabet = "abcdefghijklmnopqrstuvwxyABCDEFGHIJKLMNOPQRSTUVWXY";
    let token = gen_token();
    assert_eq!(token.chars().count(), 32);
    for c in token.chars() {
        assert!(alphabet.contains(c), "unexpected token character {:?}", c);
    }
    assert_ne!(gen_token(), gen_token());
}

#[test]
fn correlation_ids_are_32_hex_chars() {
    let id = gen_uuid(1000, 42);
    assert_eq!(id.len(), 32);
    assert!(id.chars().all(|c| c.is_ascii_hexdigit()));
}

#[test]
fn substring_search_matches_exactly() {
    assert!(contains_str("proof Tk_XYZ here", "Tk_XYZ"));
    assert!(contains_str("abc", ""));
    assert!(contains_str("", ""));
    assert!(!contains_str("", "a"));
    assert!(!contains_str("proof tk_xyz here", "Tk_XYZ"));
    assert!(contains_str("aaab", "aab"));
    assert!(!contains_str("aab", "aaab"));
}

#[test]
fn string_equality_is_by_content() {
    assert!(str_eq("abc", &"abc".to_string()));
    assert!(!str_eq("abc", "abd"));
    assert!(str_eq("", ""));
}

#[test]
fn two_line_split_takes_the_first_two() {
    assert_eq!(split_two_lines("a\nb\nc"), ("a".to_string(), "b".to_string()));
    assert_eq!(split_two_lines("a"), ("a".to_string(), "".to_string()));
    assert_eq!(split_two_lines("a\n"), ("a".to_string(), "".to_string()));
    assert_eq!(split_two_lines(""), ("".to_string(), "".to_string()));
    assert_eq!(split_two_lines("\nsecond"), ("".to_string(), "second".to_string()));
}

#[test]
fn url_detection_needs_colon_and_slash() {
    assert!(is_url("https://youtube.com/x"));
    assert!(!is_url("UC12345"));
    assert!(!is_url("youtube.com/x"));
}

#[test]
fn watch_urls_yield_video_and_comment() {
    let r = extract_video_comment_id("https://www.youtube.com/watch?v=abc123&lc=UgxDEF.456");
    assert_eq!(r, Some(("abc123".to_string(), Some("UgxDEF.456".to_string()))));
    let r = extract_video_comment_id("https://youtube.com/watch?v=abc123");
    assert_eq!(r, Some(("abc123".to_string(), None)));
}

#[test]
fn share_and_embed_urls_yield_the_video() {
    assert_eq!(
        extract_video_comment_id("https://youtu.be/abc123"),
        Some(("abc123".to_string(), None))
    );
    assert_eq!(
        extract_video_comment_id("https://www.youtube.com/embed/abc123"),
        Some(("abc123".to_string(), None))
    );
}

#[test]
fn foreign_or_odd_urls_yield_nothing() {
    assert_eq!(extract_video_comment_id("https://example.com/watch?v=abc"), None);
    assert_eq!(extract_video_comment_id("https://www.youtube.com/playlist?list=x"), None);
    assert_eq!(extract_video_comment_id("https://www.youtube.com/watch/extra?v=abc"), None);
    assert_eq!(extract_video_comment_id("not a url"), None);
}

#[test]
fn channel_urls_yield_the_channel() {
    assert_eq!(
        extract_channel_id("https://www.youtube.com/channel/UC123"),
        Some("UC123".to_string())
    );
    assert_eq!(extract_channel_id("https://youtube.com/channel/UC123/videos"),
        Some("UC123".to_string()));
    assert_eq!(extract_channel_id("https://www.youtube.com/user/someone"), None);
    assert_eq!(extract_channel_id("https://example.com/channel/UC123"), None);
}

#[test]
fn angle_stripping_keeps_odd_inputs_whole() {
    assert_eq!(strip_angles("<https://x/y>"), "https://x/y");
    assert_eq!(strip_angles("https://x/y"), "https://x/y");
    assert_eq!(strip_angles("<https://x/y"), "<https://x/y");
    assert_eq!(strip_angles(""), "");
}

#[test]
fn channel_arguments_parse_with_slots() {
    assert_eq!(parse_channel_str("UC123"), Ok(("UC123".to_string(), 0)));
    assert_eq!(parse_channel_str("UC123'"), Ok(("UC123".to_string(), 1)));
    assert_eq!(parse_channel_str("UC123'7"), Ok(("UC123".to_string(), 7)));
    assert_eq!(parse_channel_str("UC123'99"), Ok(("UC123".to_string(), 99)));
    assert_eq!(parse_channel_str("UC123'007"), Ok(("UC123".to_string(), 7)));
    assert_eq!(parse_channel_str("UC123'100"), Err(ChannelStrError::BadSlot));
    assert_eq!(parse_channel_str("UC123'x"), Err(ChannelStrError::BadSlot));
    assert_eq!(parse_channel_str("UC123'-1"), Err(ChannelStrError::BadSlot));
}

#[test]
fn channel_arguments_accept_channel_urls() {
    assert_eq!(
        parse_channel_str("<https://www.youtube.com/channel/UC9>"),
        Ok(("UC9".to_string(), 0))
    );
    assert_eq!(
        parse_channel_str("https://www.youtube.com/channel/UC9'3"),
        Ok(("UC9".to_string(), 3))
    );
    assert_eq!(parse_channel_str("https://example.com/x"), Err(ChannelStrError::BadUrl));
}

#[test]
fn rate_limiter_allows_two_per_second() {
    let mut limiter = RateLimiter::new(2);
    assert!(limiter.try_acquire(10));
    assert!(limiter.try_acquire(10));
    assert!(!limiter.try_acquire(10));
    assert!(limiter.try_acquire(11));
    assert!(limiter.try_acquire(11));
    assert!(!limiter.try_acquire(11));
}

#[test]
fn resolver_cache_hits_after_resolution() {
    let mut cache = ChannelCache::new();
    assert!(cache.get("https://www.youtube.com/watch?v=abc").is_none());
    let html = "<html><head><meta itemprop=\"channelId\" content=\"UCowner\"></head><body></body></html>";
    let resolved = cache.resolve_from_page("https://www.youtube.com/watch?v=abc", html);
    assert_eq!(resolved, Some("UCowner".to_string()));
    assert_eq!(
        cache.get("https://www.youtube.com/watch?v=abc"),
        Some("UCowner".to_string())
    );
    assert!(cache.get("https://www.youtube.com/watch?v=other").is_none());
}

#[test]
fn resolver_reports_a_missing_marker() {
    let mut cache = ChannelCache::new();
    let html = "<html><head><title>nothing</title></head></html>";
    assert!(cache.resolve_from_page("https://x/y", html).is_none());
    assert!(cache.get("https://x/y").is_none());
}

#[test]
fn resolver_overwrites_on_a_second_resolution() {
    let mut cache = ChannelCache::new();
    cache.insert("u", "UC1".to_string());
    cache.insert("u", "UC2".to_string());
    assert_eq!(cache.get("u"), Some("UC2".to_string()));
    assert_eq!(cache.entries.len(), 1);
}
