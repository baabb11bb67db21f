use member_verify::checker::parse_checker_output;
use member_verify::roles::{sync_roles_plan, GuildMember, RoleAction, SyncError};
use member_verify::store::Store;
use member_verify::verification::{verify_begin, verify_finish};

const DAY: i64 = 86400;

fn verified_store(user: u64, chan: &str, when: i64) -> Store {
    let mut store = Store::new();
    store.new_token(user, chan, 0, "t".to_string());
    store.users[0].last_verified = Some(when);
    store
}

#[test]
fn sync_requires_a_configured_server() {
    let store = Store::new();
    let err = sync_roles_plan(&store, 5, &Vec::new(), 100).unwrap_err();
    assert_eq!(err, SyncError::ServerNotConfigured);
}

#[test]
fn sync_plans_the_exact_diff() {
    let mut store = verified_store(1, "UC1", 9 * DAY);
    store.new_token(2, "UC1", 0, "t".to_string());
    store.users[1].last_verified = Some(0);  // stale
    store.set_role(5, 77, Some("UC1"));
    let roster = vec![
        GuildMember { user_id: 1, roles: vec![] },  // verified, lacks the role
        GuildMember { user_id: 2, roles: vec![77] },  // stale, holds the role
        GuildMember { user_id: 3, roles: vec![] },  // unknown, no role
    ];
    let plan = sync_roles_plan(&store, 5, &roster, 10 * DAY).unwrap();
    assert_eq!(
        plan,
        vec![
            RoleAction { guild_id: 5, user_id: 1, role_id: 77, grant: true },
            RoleAction { guild_id: 5, user_id: 2, role_id: 77, grant: false },
        ]
    );
}

#[test]
fn sync_plans_nothing_when_converged() {
    let mut store = verified_store(1, "UC1", 9 * DAY);
    store.set_role(5, 77, Some("UC1"));
    let roster = vec![GuildMember { user_id: 1, roles: vec![77] }];
    let plan = sync_roles_plan(&store, 5, &roster, 10 * DAY).unwrap();
    assert!(plan.is_empty());
}

#[test]
fn sync_freshness_window_is_three_days() {
    let mut store = verified_store(1, "UC1", 0);
    store.set_role(5, 77, Some("UC1"));
    let roster = vec![GuildMember { user_id: 1, roles: vec![] }];
    // Exactly three days old: no longer fresh.
    assert!(sync_roles_plan(&store, 5, &roster, 3 * DAY).unwrap().is_empty());
    // A second younger: still fresh.
    assert_eq!(sync_roles_plan(&store, 5, &roster, 3 * DAY - 1).unwrap().len(), 1);
}

fn apply_plan(roster: &mut Vec<GuildMember>, plan: &Vec<RoleAction>) {
    for action in plan {
        for member in roster.iter_mut() {
            if member.user_id == action.user_id {
                if action.grant {
                    if !member.roles.contains(&action.role_id) {
                        member.roles.push(action.role_id);
                    }
                } else {
                    member.roles.retain(|r| *r != action.role_id);
                }
            }
        }
    }
}

#[test]
fn sync_twice_issues_no_second_calls() {
    // Bulk reconciliation is idempotent: after the first plan's calls have
    // been applied to the roster, a second run plans nothing.
    let mut store = verified_store(1, "UC1", 9 * DAY);
    store.new_token(2, "UC2", 0, "t".to_string());
    store.users[1].last_verified = Some(9 * DAY);
    store.set_role(5, 77, Some("UC1"));
    store.set_role(5, 78, Some("UC2"));
    let mut roster = vec![
        GuildMember { user_id: 1, roles: vec![78] },
        GuildMember { user_id: 2, roles: vec![77, 78] },
    ];
    let plan = sync_roles_plan(&store, 5, &roster, 10 * DAY).unwrap();
    assert!(!plan.is_empty());
    apply_plan(&mut roster, &plan);
    let again = sync_roles_plan(&store, 5, &roster, 10 * DAY).unwrap();
    assert!(again.is_empty());
}

#[test]
fn membership_gain_plans_exactly_one_add() {
    // Guild 5 maps role 77 to UC1; the user gains membership: exactly one
    // grant for (guild 5, user 1, role 77); an identical second pass plans
    // nothing further.
    let mut store = Store::new();
    store.new_token(1, "UC1", 0, "Tk_XYZ".to_string());
    store.set_comment(1, "UC1", "u".to_string(), "abc123", "UgxDEF.456");
    store.set_role(5, 77, Some("UC1"));
    let out = "{\"channel_id\":\"UC1\",\"channel_name\":\"Acme\"}\n{\"is_member\":true,\"channel_id\":\"UCc\",\"channel\":\"UC1\",\"text\":\"proof Tk_XYZ here\"}";

    let begun = verify_begin(&mut store, 1, "UC1", 0, 1000).unwrap();
    let (info, status) = parse_checker_output(out).unwrap();
    let res = verify_finish(&mut store, 1, "UC1", 0, 1000, &begun, &info, status);
    let actions = res.update_roles(&store).unwrap();
    assert_eq!(actions, vec![RoleAction { guild_id: 5, user_id: 1, role_id: 77, grant: true }]);

    let begun = verify_begin(&mut store, 1, "UC1", 0, 2000).unwrap();
    let (info, status) = parse_checker_output(out).unwrap();
    let res = verify_finish(&mut store, 1, "UC1", 0, 2000, &begun, &info, status);
    assert!(res.update_roles(&store).is_none());
}

#[test]
fn membership_loss_plans_removals_across_guilds() {
    let mut store = Store::new();
    store.new_token(1, "UC1", 0, "Tk".to_string());
    store.set_comment(1, "UC1", "u".to_string(), "v", "c");
    store.users[0].member_on_last_update = true;
    store.set_role(5, 77, Some("UC1"));
    store.set_role(6, 88, Some("UC1"));
    store.set_role(6, 89, Some("UC2"));
    let out = "{\"channel_id\":\"UC1\",\"channel_name\":\"Acme\"}";
    let begun = verify_begin(&mut store, 1, "UC1", 0, 1000).unwrap();
    let (info, status) = parse_checker_output(out).unwrap();
    let res = verify_finish(&mut store, 1, "UC1", 0, 1000, &begun, &info, status);
    assert!(res.became_non_member());
    let actions = res.update_roles(&store).unwrap();
    assert_eq!(
        actions,
        vec![
            RoleAction { guild_id: 5, user_id: 1, role_id: 77, grant: false },
            RoleAction { guild_id: 6, user_id: 1, role_id: 88, grant: false },
        ]
    );
}
