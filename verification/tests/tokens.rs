use deskstamp::tokens::{
    current_token_env, env_from_readings, moment_from_reading, resolve_tokens, resolve_tokens_with, token_env, Moment, TokenEnv, TokenError,
};

fn local_offset() -> i32 {
    chrono::Local::now().offset().local_minus_utc()
}

fn readme_moment() -> Moment {
    // 2026-09-22 14:30:15 UTC
    Moment { unix_secs: 1790087415, nanos: 0, utc_offset_secs: 0 }
}

fn readme_env() -> TokenEnv {
    token_env(Some("gabriel".to_string()), Some("pop-os".to_string()), readme_moment())
}

fn resolve(t: &str) -> Option<String> {
    resolve_tokens_with(t, &readme_env())
}

#[test]
fn test_resolve_tokens() {
    let res = resolve_tokens("Hello {user} at {date:%Y}", None, local_offset()).unwrap();
    assert!(!res.contains("{user}"));
    assert!(!res.contains("{date:"));
}

#[test]
fn readme_user_token() {
    assert_eq!(resolve("{user}").unwrap(), "gabriel");
}

#[test]
fn readme_hostname_token() {
    assert_eq!(resolve("{hostname}").unwrap(), "pop-os");
}

#[test]
fn readme_date_token() {
    assert_eq!(resolve("{date}").unwrap(), "2026-09-22");
}

#[test]
fn readme_time_token() {
    assert_eq!(resolve("{time}").unwrap(), "14:30:15");
}

#[test]
fn readme_custom_date_format() {
    assert_eq!(resolve("{date:%b %d, %Y}").unwrap(), "Sep 22, 2026");
}

#[test]
fn readme_custom_time_format() {
    assert_eq!(resolve("{time:%I:%M %p}").unwrap(), "02:30 PM");
}

#[test]
fn default_text_resolves() {
    assert_eq!(
        resolve("CONFIDENTIAL • {user}@{hostname} • {time:%H:%M:%S}").unwrap(),
        "CONFIDENTIAL • gabriel@pop-os • 14:30:15"
    );
}

#[test]
fn plain_text_is_unchanged() {
    assert_eq!(resolve("no tokens here: 100% sure").unwrap(), "no tokens here: 100% sure");
}

#[test]
fn every_occurrence_is_replaced() {
    assert_eq!(resolve("{user}/{user} {date:%Y}-{date:%Y}").unwrap(), "gabriel/gabriel 2026-2026");
}

#[test]
fn unclosed_custom_token_stays() {
    assert_eq!(resolve("at {date:%Y").unwrap(), "at {date:%Y");
}

#[test]
fn unknown_specifier_fails() {
    assert_eq!(resolve("{date:%?}"), None);
    assert_eq!(resolve("{time:%?}"), None);
}

#[test]
fn offset_shifts_the_clock() {
    let env = token_env(
        None,
        None,
        Moment { unix_secs: 1790087415, nanos: 0, utc_offset_secs: 7200 },
    );
    assert_eq!(resolve_tokens_with("{time} {user}@{hostname}", &env).unwrap(), "16:30:15 user@localhost");
}

#[test]
fn nested_custom_tokens_expand_in_turn() {
    assert_eq!(resolve("{time:{date:}x}").unwrap(), "x");
}

#[test]
fn unknown_tokens_stay() {
    assert_eq!(resolve("{weather} {time").unwrap(), "{weather} {time");
}

#[test]
fn machine_tokens_are_filled() {
    let res = resolve_tokens("{hostname} {date} {time}", Some("me".to_string()), local_offset()).unwrap();
    assert!(!res.contains("{hostname}"));
    assert!(!res.contains("{date}"));
    assert!(!res.contains("{time}"));
}

#[test]
fn plain_text_resolves_with_the_clock() {
    assert_eq!(resolve_tokens("watermark", None, 0).unwrap(), "watermark");
}

#[test]
fn unknown_specifier_is_an_error() {
    assert_eq!(resolve_tokens("{date:%?}", None, 3600), Err(TokenError::UnrenderableFormat));
}

#[test]
fn out_of_range_offset_renders_nothing() {
    let env = token_env(None, None, Moment { unix_secs: 0, nanos: 0, utc_offset_secs: 100000 });
    assert_eq!(resolve_tokens_with("plain", &env), None);
}

#[test]
fn current_env_keeps_the_user() {
    let env = current_token_env(Some("me".to_string()), -7200).unwrap();
    assert_eq!(env.user, "me");
    assert_eq!(env.now.utc_offset_secs, -7200);
}

#[test]
fn offset_of_a_day_is_refused() {
    assert_eq!(resolve_tokens("x", None, 86400), Err(TokenError::OffsetOutOfRange));
    assert_eq!(resolve_tokens("x", None, -86400), Err(TokenError::OffsetOutOfRange));
}

#[test]
fn reading_becomes_the_moment() {
    let m = moment_from_reading(Some((1790087415, 5)), 3600).unwrap();
    assert_eq!((m.unix_secs, m.nanos, m.utc_offset_secs), (1790087415, 5, 3600));
    assert!(moment_from_reading(None, 0).is_none());
    assert!(moment_from_reading(Some((u64::MAX, 0)), 0).is_none());
    assert!(moment_from_reading(Some((0, 0)), 90000).is_none());
    assert!(moment_from_reading(Some((0, 2_000_000_000)), 0).is_none());
}

#[test]
fn readings_fill_the_environment() {
    let env = env_from_readings(None, Some("box".to_string()), Some((1790087415, 0)), 0).unwrap();
    assert_eq!(env.user, "user");
    assert_eq!(env.host, "box");
    assert_eq!(resolve_tokens_with("{date} {time}", &env).unwrap(), "2026-09-22 14:30:15");
    assert!(env_from_readings(None, None, None, 0).is_none());
}
