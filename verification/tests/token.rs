use caller_modpath_aggregator::token::{
    correlation_env_var_name, correlation_ident, fresh_correlation_token, sanitize_token,
};

#[test]
fn fresh_tokens_are_36_characters_of_hex_or_underscore() {
    let t = fresh_correlation_token();
    assert_eq!(t.chars().count(), 36);
    assert!(t.chars().all(|c| c == '_' || c.is_ascii_hexdigit()));
    assert!(!t.contains('-'));
    let chars: Vec<char> = t.chars().collect();
    for i in [8, 13, 18, 23] {
        assert_eq!(chars[i], '_');
    }
}

#[test]
fn two_fresh_tokens_differ() {
    assert_ne!(fresh_correlation_token(), fresh_correlation_token());
}

#[test]
fn sanitizing_replaces_every_hyphen() {
    assert_eq!(sanitize_token("a-b-c"), "a_b_c");
    assert_eq!(sanitize_token("no-hyphens--left"), "no_hyphens__left");
    assert_eq!(sanitize_token("plain"), "plain");
    assert_eq!(sanitize_token(""), "");
}

#[test]
fn the_correlation_ident_embeds_the_token() {
    assert_eq!(correlation_ident("abc123"), "caller_modpath_aggregator_UUID_abc123");
}

#[test]
fn the_env_var_name_is_derived_from_the_package_name() {
    assert_eq!(
        correlation_env_var_name(),
        "CARGO_INJECT_caller_modpath_aggregator_SECOND_PASS_UUID"
    );
}
