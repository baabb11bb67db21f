use member_verify::checker::{
    check_id, checker_cli_args, checker_id_arg, parse_checker_output, validate_ids, AdapterError,
    MembershipStatus,
};

#[test]
fn check_id_accepts_identifier_chars() {
    assert!(check_id("abc123"));
    assert!(check_id("UgxDEF.456"));
    assert!(check_id("a-b_c.d"));
    assert!(check_id(""));
}

#[test]
fn check_id_rejects_other_chars() {
    assert!(!check_id("abc&def"));
    assert!(!check_id("a b"));
    assert!(!check_id("x;rm"));
    assert!(!check_id("\u{e9}"));
}

#[test]
fn validate_ids_rejects_locally() {
    assert!(validate_ids("abc123", "UgxDEF.456").is_ok());
    assert_eq!(validate_ids("a&b", "ok").unwrap_err(), AdapterError::InvalidInput);
    assert_eq!(validate_ids("ok", "a b").unwrap_err(), AdapterError::InvalidInput);
}

#[test]
fn id_arg_is_video_and_comment() {
    assert_eq!(checker_id_arg("abc123", "UgxDEF.456"), "abc123&lc=UgxDEF.456");
}

#[test]
fn cli_args_follow_the_protocol() {
    let args = checker_cli_args("abc", "def", "SECRET");
    assert_eq!(args, vec!["--id", "abc&lc=def", "-s", "0", "-l", "1", "--cookie", "SECRET"]);
}

#[test]
fn parse_two_line_member_output() {
    let out = "{\"channel_id\":\"UC1\",\"channel_name\":\"Acme\"}\n{\"is_member\":true,\"channel_id\":\"UCcommenter\",\"channel\":\"UC1\",\"text\":\"proof Tk_XYZ here\"}";
    let (info, status) = parse_checker_output(out).unwrap();
    assert_eq!(info.channel_id, "UC1");
    assert_eq!(info.channel_name, "Acme");
    match status {
        MembershipStatus::Member { channel_id, user_channel_id, text } => {
            assert_eq!(channel_id, "UC1");
            assert_eq!(user_channel_id, "UCcommenter");
            assert_eq!(text, "proof Tk_XYZ here");
        },
        _ => panic!("expected a member verdict"),
    }
}

#[test]
fn parse_non_member_output() {
    let out = "{\"channel_id\":\"UC1\",\"channel_name\":\"Acme\"}\n{\"is_member\":false,\"channel_id\":\"UCc\",\"channel\":\"UC1\",\"text\":\"hi\"}";
    let (_, status) = parse_checker_output(out).unwrap();
    assert!(matches!(status, MembershipStatus::Not { .. }));
}

#[test]
fn no_second_line_is_not_found() {
    let out = "{\"channel_id\":\"UC1\",\"channel_name\":\"Acme\"}";
    let (info, status) = parse_checker_output(out).unwrap();
    assert_eq!(info.channel_name, "Acme");
    assert!(matches!(status, MembershipStatus::NotFound));
}

#[test]
fn trailing_newline_is_still_not_found() {
    let out = "{\"channel_id\":\"UC1\",\"channel_name\":\"Acme\"}\n";
    let (_, status) = parse_checker_output(out).unwrap();
    assert!(matches!(status, MembershipStatus::NotFound));
}

#[test]
fn malformed_first_line_is_adapter_failure() {
    assert_eq!(parse_checker_output("not json").unwrap_err(), AdapterError::AdapterFailure);
    assert_eq!(parse_checker_output("").unwrap_err(), AdapterError::AdapterFailure);
    assert_eq!(
        parse_checker_output("{\"channel_id\":\"UC1\"}").unwrap_err(),
        AdapterError::AdapterFailure
    );
}

#[test]
fn malformed_second_line_is_adapter_failure() {
    let out = "{\"channel_id\":\"UC1\",\"channel_name\":\"Acme\"}\nbroken";
    assert_eq!(parse_checker_output(out).unwrap_err(), AdapterError::AdapterFailure);
    let missing_field =
        "{\"channel_id\":\"UC1\",\"channel_name\":\"Acme\"}\n{\"is_member\":true,\"channel\":\"UC1\",\"text\":\"t\"}";
    assert_eq!(parse_checker_output(missing_field).unwrap_err(), AdapterError::AdapterFailure);
}

#[test]
fn third_line_is_ignored() {
    let out = "{\"channel_id\":\"UC1\",\"channel_name\":\"Acme\"}\n{\"is_member\":true,\"channel_id\":\"UCc\",\"channel\":\"UC1\",\"text\":\"t\"}\ngarbage";
    assert!(parse_checker_output(out).is_ok());
}
