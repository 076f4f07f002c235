use gorillabot::commands::{plan_follow, unfollow_reply, FollowAction, HostResolution};
use gorillabot::config::{config_from_env_values, parse_u64, ConfigError};

#[test]
fn parse_u64_accepts_plain_and_signed_decimals() {
    assert_eq!(parse_u64("30"), Some(30));
    assert_eq!(parse_u64("0"), Some(0));
    assert_eq!(parse_u64("+7"), Some(7));
    assert_eq!(parse_u64("007"), Some(7));
    assert_eq!(parse_u64("18446744073709551615"), Some(u64::MAX));
}

#[test]
fn parse_u64_rejects_what_u64_rejects() {
    assert_eq!(parse_u64(""), None);
    assert_eq!(parse_u64("+"), None);
    assert_eq!(parse_u64("-1"), None);
    assert_eq!(parse_u64("12a"), None);
    assert_eq!(parse_u64(" 12"), None);
    assert_eq!(parse_u64("18446744073709551616"), None);
    assert_eq!(parse_u64("99999999999999999999999"), None);
}

#[test]
fn parse_u64_agrees_with_the_standard_parser() {
    for s in ["30", "+7", "007", "", "+", "-1", "12a", "18446744073709551615", "18446744073709551616"] {
        assert_eq!(parse_u64(s), s.parse::<u64>().ok(), "input {:?}", s);
    }
}

#[test]
fn config_defaults_the_interval_to_thirty_seconds() {
    let c = config_from_env_values(Some("token".to_string()), None).unwrap();
    assert_eq!(c.poll_interval_secs, 30);
    assert_eq!(c.discord_token, "token");
}

#[test]
fn config_takes_the_interval_from_the_variable() {
    let c = config_from_env_values(Some("token".to_string()), Some("90".to_string())).unwrap();
    assert_eq!(c.poll_interval_secs, 90);
}

#[test]
fn config_without_token_fails() {
    let e = config_from_env_values(None, None).unwrap_err();
    assert_eq!(e, ConfigError::MissingToken);
}

#[test]
fn config_with_bad_interval_fails_before_the_token_check() {
    let e = config_from_env_values(None, Some("soon".to_string())).unwrap_err();
    assert_eq!(e, ConfigError::BadInterval);
    let e = config_from_env_values(Some("token".to_string()), Some("-5".to_string())).unwrap_err();
    assert_eq!(e, ConfigError::BadInterval);
}

#[test]
fn follow_without_argument_asks_for_a_hostname() {
    let p = plan_follow(&None, &HostResolution::Resolved);
    assert_eq!(p, FollowAction::AskForHostname);
    assert_eq!(p.reply_text().unwrap(), "Expected server hostname");
}

#[test]
fn follow_with_bad_hostname_is_rejected() {
    let host = Some("not a host".to_string());
    let p = plan_follow(&host, &HostResolution::Invalid);
    assert_eq!(p, FollowAction::RejectInvalidHostname);
    assert_eq!(p.reply_text().unwrap(), "Invalid server hostname");
    let p = plan_follow(&host, &HostResolution::NoAddress);
    assert_eq!(p, FollowAction::RejectUnresolvable);
    assert_eq!(p.reply_text().unwrap(), "Failed to resolve server address");
}

#[test]
fn follow_with_resolved_hostname_subscribes() {
    let host = Some("a.example:27015".to_string());
    let p = plan_follow(&host, &HostResolution::Resolved);
    assert_eq!(p, FollowAction::Subscribe);
    assert!(p.reply_text().is_none());
}

#[test]
fn unfollow_confirms_in_the_bot_voice() {
    assert_eq!(unfollow_reply(), "Unsubscribed from server status updates :(");
}
