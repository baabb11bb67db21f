use member_verify::checker::parse_checker_output;
use member_verify::store::Store;
use member_verify::verification::{
    check_over_paired_discord_ids, count_owner_ids, pending_bindings, verify_begin, verify_finish,
    HumanContext, VerifyResult,
};

const DAY: i64 = 86400;

fn store_with_binding(token: &str) -> Store {
    let mut store = Store::new();
    store.new_token(1, "UC1", 0, token.to_string());
    store.set_comment(1, "UC1", "unused".to_string(), "abc123", "UgxDEF.456");
    store
}

fn run_pass(store: &mut Store, now: i64, checker_output: &str) -> VerifyResult {
    let begun = verify_begin(store, 1, "UC1", 0, now).unwrap();
    let (info, status) = parse_checker_output(checker_output).unwrap();
    verify_finish(store, 1, "UC1", 0, now, &begun, &info, status)
}

#[test]
fn begin_requires_a_configured_binding() {
    let mut store = Store::new();
    let err = verify_begin(&mut store, 1, "UC1", 0, 100).unwrap_err();
    assert!(matches!(err, HumanContext::UserNotConfigured));
}

#[test]
fn begin_requires_a_comment() {
    let mut store = Store::new();
    store.new_token(1, "UC1", 0, "tok".to_string());
    let err = verify_begin(&mut store, 1, "UC1", 0, 100).unwrap_err();
    assert!(matches!(err, HumanContext::CommentNotSet));
    assert_eq!(store.users[0].failed_checks, 0);
}

#[test]
fn begin_is_pessimistic_about_failures() {
    // An adapter failure after `verify_begin` leaves the failure count
    // incremented and the last successful verification untouched.
    let mut store = store_with_binding("Tk_XYZ");
    store.users[0].failed_checks = 2;
    store.users[0].last_verified = Some(50);
    let begun = verify_begin(&mut store, 1, "UC1", 0, 100).unwrap();
    assert_eq!(begun.token, "Tk_XYZ");
    assert_eq!(begun.video_id, "abc123");
    assert_eq!(begun.comment_id, "UgxDEF.456");
    assert_eq!(store.users[0].failed_checks, 3);
    assert_eq!(store.users[0].last_checked, Some(100));
    assert_eq!(store.users[0].last_verified, Some(50));
}

#[test]
fn too_many_failures_triggers_past_five() {
    let mut store = store_with_binding("tok");
    store.users[0].failed_checks = 5;
    assert!(verify_begin(&mut store, 1, "UC1", 0, 100).is_ok());
    assert_eq!(store.users[0].failed_checks, 6);
    let err = verify_begin(&mut store, 1, "UC1", 0, 200).unwrap_err();
    assert!(matches!(err, HumanContext::TooManyFailures));
    assert_eq!(store.users[0].failed_checks, 6);
}

#[test]
fn member_with_token_verifies() {
    // Binding on UC1 with token Tk_XYZ; the checker reports a member whose
    // comment holds the token: membership and ownership both land.
    let mut store = store_with_binding("Tk_XYZ");
    let out = "{\"channel_id\":\"UC1\",\"channel_name\":\"Acme\"}\n{\"is_member\":true,\"channel_id\":\"UCcommenter\",\"channel\":\"UC1\",\"text\":\"proof Tk_XYZ here\"}";
    let res = run_pass(&mut store, 1000, out);
    assert!(res.is_member);
    assert!(!res.was_member);
    assert!(res.ownership_verified);
    assert!(res.errors.is_empty());
    assert_eq!(res.channel_name, "Acme");
    assert_eq!(res.yt_channel_id, "UC1");
    let rec = &store.users[0];
    assert_eq!(rec.user_yt_channel_id.as_deref(), Some("UCcommenter"));
    assert_eq!(rec.last_verified, Some(1000));
    assert_eq!(rec.last_channel_verified, Some(1000));
    assert_eq!(rec.failed_checks, 0);
    assert!(rec.member_on_last_update);
    assert_eq!(rec.channel_name.as_deref(), Some("Acme"));
}

#[test]
fn member_on_wrong_channel_is_refused() {
    let mut store = store_with_binding("Tk_XYZ");
    let out = "{\"channel_id\":\"UC1\",\"channel_name\":\"Acme\"}\n{\"is_member\":true,\"channel_id\":\"UCcommenter\",\"channel\":\"UC2\",\"text\":\"proof Tk_XYZ here\"}";
    let res = run_pass(&mut store, 1000, out);
    assert!(!res.is_member);
    assert_eq!(res.errors.len(), 1);
    match &res.errors[0] {
        HumanContext::WrongChannel { correct, actual } => {
            assert_eq!(correct, "UC1");
            assert_eq!(actual, "UC2");
        },
        other => panic!("expected a wrong-channel reason, got {:?}", other),
    }
    let rec = &store.users[0];
    assert!(rec.last_verified.is_none());
    assert!(!rec.member_on_last_update);
    // The token still proves ownership of the commenting account.
    assert!(res.ownership_verified);
    assert_eq!(rec.user_yt_channel_id.as_deref(), Some("UCcommenter"));
}

#[test]
fn missing_comment_is_refused_without_ownership_change() {
    let mut store = store_with_binding("Tk_XYZ");
    let out = "{\"channel_id\":\"UC1\",\"channel_name\":\"Acme\"}";
    let res = run_pass(&mut store, 1000, out);
    assert!(!res.is_member);
    assert!(!res.ownership_verified);
    assert_eq!(res.errors.len(), 1);
    assert!(matches!(res.errors[0], HumanContext::CouldNotLoadComment));
    let rec = &store.users[0];
    assert!(rec.user_yt_channel_id.is_none());
    assert!(rec.last_channel_verified.is_none());
    assert!(rec.last_verified.is_none());
    assert_eq!(rec.failed_checks, 0);
}

#[test]
fn member_without_token_and_no_prior_record() {
    let mut store = store_with_binding("Tk_XYZ");
    let out = "{\"channel_id\":\"UC1\",\"channel_name\":\"Acme\"}\n{\"is_member\":true,\"channel_id\":\"UCcommenter\",\"channel\":\"UC1\",\"text\":\"no token here\"}";
    let res = run_pass(&mut store, 1000, out);
    assert!(!res.is_member);
    assert!(!res.ownership_verified);
    assert_eq!(res.errors.len(), 1);
    assert!(matches!(res.errors[0], HumanContext::TokenNotInComment));
    assert!(store.users[0].user_yt_channel_id.is_none());
}

#[test]
fn member_without_token_but_prior_ownership_passes() {
    // The commenting account proved ownership for this user earlier (on
    // another binding): the missing token is accepted, but ownership is not
    // re-established this pass.
    let mut store = store_with_binding("Tk_XYZ");
    store.new_token(1, "UC7", 0, "other".to_string());
    store.users[1].user_yt_channel_id = Some("UCcommenter".to_string());
    store.users[1].last_channel_verified = Some(10);
    let out = "{\"channel_id\":\"UC1\",\"channel_name\":\"Acme\"}\n{\"is_member\":true,\"channel_id\":\"UCcommenter\",\"channel\":\"UC1\",\"text\":\"no token here\"}";
    let res = run_pass(&mut store, 1000, out);
    assert!(res.is_member);
    assert!(res.errors.is_empty());
    assert!(!res.ownership_verified);
    assert!(store.users[0].user_yt_channel_id.is_none());
    assert!(store.users[0].last_channel_verified.is_none());
}

#[test]
fn non_member_with_token_still_proves_ownership() {
    let mut store = store_with_binding("Tk_XYZ");
    let out = "{\"channel_id\":\"UC1\",\"channel_name\":\"Acme\"}\n{\"is_member\":false,\"channel_id\":\"UCcommenter\",\"channel\":\"UC1\",\"text\":\"proof Tk_XYZ here\"}";
    let res = run_pass(&mut store, 1000, out);
    assert!(!res.is_member);
    assert!(res.ownership_verified);
    assert_eq!(res.errors.len(), 1);
    assert!(matches!(res.errors[0], HumanContext::NotAMember));
    assert_eq!(store.users[0].user_yt_channel_id.as_deref(), Some("UCcommenter"));
}

#[test]
fn non_member_without_token_collects_both_reasons() {
    let mut store = store_with_binding("Tk_XYZ");
    let out = "{\"channel_id\":\"UC1\",\"channel_name\":\"Acme\"}\n{\"is_member\":false,\"channel_id\":\"UCcommenter\",\"channel\":\"UC2\",\"text\":\"nothing\"}";
    let res = run_pass(&mut store, 1000, out);
    assert!(!res.is_member);
    assert!(!res.ownership_verified);
    assert_eq!(res.errors.len(), 3);
    assert!(matches!(res.errors[0], HumanContext::NotAMember));
    assert!(matches!(res.errors[1], HumanContext::WrongChannel { .. }));
    assert!(matches!(res.errors[2], HumanContext::TokenNotInComment));
}

#[test]
fn over_paired_account_is_refused_ownership() {
    // Four other users already linked to the commenting account: the token
    // match is accepted for membership but ownership is rejected.
    let mut store = store_with_binding("Tk_XYZ");
    for u in 10..14u64 {
        store.new_token(u, "UC9", 0, "t".to_string());
        let idx = store.users.len() - 1;
        store.users[idx].user_yt_channel_id = Some("UCcommenter".to_string());
    }
    assert_eq!(count_owner_ids(&store.users, "UCcommenter"), 4);
    let out = "{\"channel_id\":\"UC1\",\"channel_name\":\"Acme\"}\n{\"is_member\":true,\"channel_id\":\"UCcommenter\",\"channel\":\"UC1\",\"text\":\"proof Tk_XYZ here\"}";
    let res = run_pass(&mut store, 1000, out);
    assert!(res.is_member);
    assert!(!res.ownership_verified);
    assert_eq!(res.errors.len(), 1);
    assert!(matches!(res.errors[0], HumanContext::OverPairedDiscordId));
    assert!(store.users[0].user_yt_channel_id.is_none());
}

#[test]
fn second_identical_pass_reports_no_flip() {
    let mut store = store_with_binding("Tk_XYZ");
    let out = "{\"channel_id\":\"UC1\",\"channel_name\":\"Acme\"}\n{\"is_member\":true,\"channel_id\":\"UCcommenter\",\"channel\":\"UC1\",\"text\":\"proof Tk_XYZ here\"}";
    let first = run_pass(&mut store, 1000, out);
    assert!(first.became_member());
    let second = run_pass(&mut store, 2000, out);
    assert!(second.was_member);
    assert!(second.is_member);
    assert!(!second.became_member());
    assert!(!second.became_non_member());
}

#[test]
fn notifications_fire_only_on_a_flip() {
    let mut store = store_with_binding("Tk_XYZ");
    let member = "{\"channel_id\":\"UC1\",\"channel_name\":\"Acme\"}\n{\"is_member\":true,\"channel_id\":\"UCc\",\"channel\":\"UC1\",\"text\":\"proof Tk_XYZ here\"}";
    let gained = run_pass(&mut store, 1000, member);
    assert_eq!(
        gained.notification_message().as_deref(),
        Some("Membership to Acme (UC1) is now verified")
    );
    let same = run_pass(&mut store, 2000, member);
    assert!(same.notification_message().is_none());
    let gone = "{\"channel_id\":\"UC1\",\"channel_name\":\"Acme\"}";
    let lost = run_pass(&mut store, 3000, gone);
    assert_eq!(
        lost.notification_message().as_deref(),
        Some(
            "Membership to Acme (UC1) is no longer verified\n`  `Could not load video or comment"
        )
    );
}

#[test]
fn pending_selects_only_cool_and_configured_bindings() {
    let mut store = Store::new();
    // Due: checked and verified long ago, five failures at most.
    store.new_token(1, "UC1", 0, "a".to_string());
    store.set_comment(1, "UC1", "u".to_string(), "v", "c");
    store.users[0].last_checked = Some(0);
    store.users[0].last_verified = Some(0);
    store.users[0].failed_checks = 5;
    // Not due: too many failures.
    store.new_token(2, "UC1", 0, "b".to_string());
    store.set_comment(2, "UC1", "u".to_string(), "v", "c");
    store.users[1].last_checked = Some(0);
    store.users[1].last_verified = Some(0);
    store.users[1].failed_checks = 6;
    // Not due: never checked.
    store.new_token(3, "UC1", 0, "c".to_string());
    store.set_comment(3, "UC1", "u".to_string(), "v", "c");
    // Not due: verified too recently.
    store.new_token(4, "UC1", 0, "d".to_string());
    store.set_comment(4, "UC1", "u".to_string(), "v", "c");
    store.users[3].last_checked = Some(0);
    store.users[3].last_verified = Some(9 * DAY);
    // Not due: no comment set.
    store.new_token(5, "UC1", 0, "e".to_string());
    store.users[4].last_checked = Some(0);
    store.users[4].last_verified = Some(0);
    let pending = pending_bindings(&store, 10 * DAY, 100);
    assert_eq!(pending, vec![(1, "UC1".to_string(), 0)]);
}

#[test]
fn pending_respects_the_limit() {
    let mut store = Store::new();
    for u in 1..=5u64 {
        store.new_token(u, "UC1", 0, "t".to_string());
        store.set_comment(u, "UC1", "u".to_string(), "v", "c");
        let idx = (u - 1) as usize;
        store.users[idx].last_checked = Some(0);
        store.users[idx].last_verified = Some(0);
    }
    let pending = pending_bindings(&store, 10 * DAY, 3);
    assert_eq!(pending.len(), 3);
    assert_eq!(pending[0].0, 1);
    assert_eq!(pending[2].0, 3);
}

#[test]
fn pending_boundary_is_strictly_older_than_two_days() {
    let mut store = Store::new();
    store.new_token(1, "UC1", 0, "a".to_string());
    store.set_comment(1, "UC1", "u".to_string(), "v", "c");
    store.users[0].last_checked = Some(0);
    store.users[0].last_verified = Some(0);
    assert!(pending_bindings(&store, 2 * DAY, 10).is_empty());
    assert_eq!(pending_bindings(&store, 2 * DAY + 1, 10).len(), 1);
}

#[test]
fn over_pairing_purges_at_four_linked_users() {
    let mut store = Store::new();
    for u in 1..=3u64 {
        store.new_token(u, "UC1", 0, "t".to_string());
        let idx = store.users.len() - 1;
        store.users[idx].user_yt_channel_id = Some("UCshared".to_string());
    }
    store.new_token(9, "UC2", 0, "t".to_string());
    // Exactly three distinct users: untouched.
    let purged = check_over_paired_discord_ids(&mut store);
    assert!(purged.is_empty());
    assert_eq!(store.users.len(), 4);
    // A fourth distinct user tips the account over the threshold.
    store.new_token(4, "UC1", 0, "t".to_string());
    let idx = store.users.len() - 1;
    store.users[idx].user_yt_channel_id = Some("UCshared".to_string());
    let purged = check_over_paired_discord_ids(&mut store);
    assert_eq!(purged, vec!["UCshared".to_string()]);
    assert_eq!(store.users.len(), 1);
    assert_eq!(store.users[0].discord_id, 9);
    // Re-running with no new over-pairings is a no-op.
    let purged = check_over_paired_discord_ids(&mut store);
    assert!(purged.is_empty());
    assert_eq!(store.users.len(), 1);
}

#[test]
fn duplicate_bindings_of_one_user_count_once() {
    let mut store = Store::new();
    for n in 0..4i64 {
        store.new_token(1, "UC1", n, "t".to_string());
        let idx = store.users.len() - 1;
        store.users[idx].user_yt_channel_id = Some("UCshared".to_string());
    }
    assert_eq!(count_owner_ids(&store.users, "UCshared"), 1);
    let purged = check_over_paired_discord_ids(&mut store);
    assert!(purged.is_empty());
    assert_eq!(store.users.len(), 4);
}
