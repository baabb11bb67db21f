use member_verify::status::{get_statuses, u64_to_string, UserStatus};
use member_verify::store::Store;
use member_verify::verification::HumanContext;

const DAY: i64 = 86400;

#[test]
fn decimal_rendering_is_exact() {
    assert_eq!(u64_to_string(0), "0");
    assert_eq!(u64_to_string(7), "7");
    assert_eq!(u64_to_string(10), "10");
    assert_eq!(u64_to_string(1234567890), "1234567890");
    assert_eq!(u64_to_string(u64::MAX), "18446744073709551615");
}

fn bare_status() -> UserStatus {
    UserStatus {
        yt_channel_id: "UC1".to_string(),
        yt_channel_n: 0,
        yt_video_id: None,
        yt_comment_id: None,
        token: "tok".to_string(),
        last_verified: None,
        last_channel_verified: None,
        last_checked: None,
        failed_checks: 0,
        is_verified: false,
        channel_verified: false,
        channel_name: None,
    }
}

#[test]
fn message_for_an_unconfigured_binding() {
    let expected = "<https://www.youtube.com/channel/UC1>\n```diff\n- no comment set\n  token: tok\n- not verified\n```\
`  verified member :` -\n`  verified comment:` -\n`  checked  fi     :` -\n";
    assert_eq!(bare_status().format_message(), expected);
}

#[test]
fn message_for_a_verified_binding() {
    let mut status = bare_status();
    status.channel_name = Some("Acme".to_string());
    status.yt_channel_n = 2;
    status.yt_video_id = Some("abc123".to_string());
    status.yt_comment_id = Some("UgxDEF.456".to_string());
    status.last_verified = Some(1000);
    status.last_channel_verified = Some(900);
    status.last_checked = Some(1000);
    status.failed_checks = 3;
    status.is_verified = true;
    status.channel_verified = true;
    let expected = "Acme\n`  `<https://www.youtube.com/channel/UC1> '2\n\
`  `<https://www.youtube.com/watch?v=abc123&lc=UgxDEF.456>\n```diff\n  token: tok\n\
+ membership verified\n- failed_checks: 3```\
`  verified member :` <t:1000>\n`  verified comment:` <t:900>\n`  checked  fi     :` <t:1000>\n";
    assert_eq!(status.format_message(), expected);
}

#[test]
fn message_slot_one_shows_a_bare_quote() {
    let mut status = bare_status();
    status.yt_channel_n = 1;
    assert!(status.format_message().contains("<https://www.youtube.com/channel/UC1> '\n"));
}

#[test]
fn message_verdict_variants() {
    let mut status = bare_status();
    status.is_verified = true;
    assert!(status.format_message().contains("+ membership verified (no token)\n"));
    status.is_verified = false;
    status.channel_verified = true;
    assert!(status.format_message().contains("+ channel verified\n"));
}

#[test]
fn statuses_cover_the_freshness_window() {
    let mut store = Store::new();
    store.new_token(1, "UC1", 0, "a".to_string());
    store.users[0].last_verified = Some(8 * DAY);
    store.new_token(1, "UC2", 0, "b".to_string());
    store.users[1].last_verified = Some(0);
    store.new_token(2, "UC3", 0, "c".to_string());
    store.users[2].user_yt_channel_id = Some("UCx".to_string());
    store.users[2].last_channel_verified = Some(0);
    let statuses = get_statuses(&store, 1, 10 * DAY);
    assert_eq!(statuses.len(), 2);
    assert_eq!(statuses[0].yt_channel_id, "UC1");
    assert!(statuses[0].is_verified);
    assert!(!statuses[0].channel_verified);
    assert_eq!(statuses[1].yt_channel_id, "UC2");
    assert!(!statuses[1].is_verified);
    let other = get_statuses(&store, 2, 10 * DAY);
    assert_eq!(other.len(), 1);
    assert!(other[0].channel_verified);
    assert!(get_statuses(&store, 9, 10 * DAY).is_empty());
}

#[test]
fn reason_messages_are_exact() {
    assert_eq!(HumanContext::NotAMember.message(), "Not a member");
    assert_eq!(HumanContext::CouldNotLoadComment.message(), "Could not load video or comment");
    assert_eq!(HumanContext::TokenNotInComment.message(), "Comment does not contain token");
    assert_eq!(
        HumanContext::WrongChannel { correct: "UC1".to_string(), actual: "UC2".to_string() }
            .message(),
        "Comment is not on the correct channel UC1 != (actual)UC2"
    );
    assert_eq!(
        HumanContext::UserNotConfigured.message(),
        "No token has been created for channel"
    );
    assert_eq!(HumanContext::CommentNotSet.message(), "No comment set for channel");
    assert_eq!(HumanContext::TooManyFailures.message(), "Too many consecutive failures");
    assert_eq!(
        HumanContext::OverPairedDiscordId.message(),
        "Too many discord ids paired to youtube account"
    );
}
