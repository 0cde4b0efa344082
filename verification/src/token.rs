//! The identifier synthesizer: fresh correlation tokens, and the fixed names
//! derived from them that the second pass recognizes in compiler output.

use vstd::prelude::*;

verus! {

/// A lowercase hexadecimal digit, the alphabet a rendered token is made of.
pub open spec fn is_lower_hex_digit(c: char) -> bool {
    ('0' <= c && c <= '9') || ('a' <= c && c <= 'f')
}

/// A position carrying a hyphen in the 36-character hyphenated rendering of
/// a universally unique identifier.
pub open spec fn is_hyphen_position(i: int) -> bool {
    i == 8 || i == 13 || i == 18 || i == 23
}

/// Relies on `uuid::Uuid::new_v4` and `Display for Uuid`, which renders the
/// 36-character lowercase hyphenated form: hyphens at their four fixed
/// positions, a lowercase hex digit everywhere else. Nothing is assumed of
/// which digits come out.
#[verifier::external_body]
fn random_uuid_string() -> (r: String)
    ensures
        r@.len() == 36,
        forall|i: int| 0 <= i < 36 && is_hyphen_position(i) ==> #[trigger] r@[i] == '-',
        forall|i: int| 0 <= i < 36 && !is_hyphen_position(i) ==> is_lower_hex_digit(#[trigger] r@[i]),
{
    uuid::Uuid::new_v4().to_string()
}

/// Replaces every hyphen with an underscore, character for character.
pub fn sanitize_token(raw: &str) -> (r: String)
    ensures
        r@.len() == raw@.len(),
        forall|i: int|
            0 <= i < raw@.len() ==> #[trigger] r@[i] == (if raw@[i] == '-' {
                '_'
            } else {
                raw@[i]
            }),
{
    let n = raw.unicode_len();
    let mut r = String::new();
    let mut i: usize = 0;
    while i < n
        invariant
            n == raw@.len(),
            0 <= i <= n,
            r@.len() == i,
            forall|k: int|
                0 <= k < i ==> #[trigger] r@[k] == (if raw@[k] == '-' {
                    '_'
                } else {
                    raw@[k]
                }),
        decreases n - i,
    {
        let c = raw.get_char(i);
        if c == '-' {
            proof {
                reveal_strlit("_");
            }
            r.append("_");
        } else {
            let piece = raw.substring_char(i, i + 1);
            r.append(piece);
        }
        i += 1;
    }
    r
}

/// Synthesizes a fresh correlation token: 36 characters, underscores at the
/// four fixed hyphen positions and lowercase hex digits everywhere else — in
/// particular free of hyphens, which unescaped compiler-output punctuation
/// could otherwise mimic.
pub fn fresh_correlation_token() -> (t: String)
    ensures
        t@.len() == 36,
        forall|i: int| 0 <= i < 36 && is_hyphen_position(i) ==> #[trigger] t@[i] == '_',
        forall|i: int|
            0 <= i < 36 && !is_hyphen_position(i) ==> is_lower_hex_digit(#[trigger] t@[i]),
        forall|i: int| 0 <= i < t@.len() ==> #[trigger] t@[i] != '-',
{
    let raw = random_uuid_string();
    let t = sanitize_token(raw.as_str());
    t
}

/// The environment variable through which the second pass receives the
/// correlation token; its name is derived from this package's own name.
pub fn correlation_env_var_name() -> (r: String)
    ensures
        r@ == "CARGO_INJECT_caller_modpath_aggregator_SECOND_PASS_UUID"@,
{
    "CARGO_INJECT_caller_modpath_aggregator_SECOND_PASS_UUID".to_owned()
}

/// The identifier under which the second pass declares one module-path
/// literal: the package name, `_UUID_`, then the correlation token.
pub fn correlation_ident(token: &str) -> (r: String)
    ensures
        r@ == "caller_modpath_aggregator_UUID_"@ + token@,
{
    let mut r = "caller_modpath_aggregator_UUID_".to_owned();
    r.append(token);
    r
}

} // verus!
