//! The application configuration, with the default of each setting that is
//! not given.
use vstd::prelude::*;
use vstd::string::*;

verus! {

broadcast use vstd::string::group_string_axioms;

#[derive(Debug, Clone, PartialEq, Eq)]
pub struct AppConfig {
    pub backend_port: u16,
    pub database_url: Option<String>,
    pub redis_url: Option<String>,
    pub owner_username: String,
    pub owner_password: String,
    pub owner_system_prompt: String,
    pub user_system_prompt: String,
    pub ai_provider: String,
    pub ai_api_key: String,
    pub ai_model: String,
    pub ai_base_url: String,
}

/// Whether `c` is an ASCII decimal digit.
pub open spec fn is_digit(c: char) -> bool {
    '0' <= c <= '9'
}

/// The value of a decimal digit.
pub open spec fn digit_value(c: char) -> nat {
    (c as int - '0' as int) as nat
}

/// The value of a string of decimal digits.
pub open spec fn decimal(d: Seq<char>) -> nat
    decreases d.len(),
{
    if d.len() == 0 {
        0
    } else {
        decimal(d.drop_last()) * 10 + digit_value(d.last())
    }
}

/// `u16::from_str`: an optional `+`, then one or more decimal digits whose
/// value fits in a `u16`.
pub open spec fn parse_u16(s: Seq<char>) -> Option<u16> {
    let d = unsigned_part(s);
    if d.len() > 0 && all_digits(d) && decimal(d) <= u16::MAX {
        Some(decimal(d) as u16)
    } else {
        None
    }
}

/// The text after an optional leading `+`.
pub open spec fn unsigned_part(s: Seq<char>) -> Seq<char> {
    if s.len() > 0 && s[0] == '+' {
        s.drop_first()
    } else {
        s
    }
}

/// Every character is a decimal digit.
pub open spec fn all_digits(d: Seq<char>) -> bool {
    forall|i: int| 0 <= i < d.len() ==> is_digit(#[trigger] d[i])
}

proof fn lemma_decimal_grows(d: Seq<char>, k: int)
    requires
        0 <= k <= d.len(),
    ensures
        decimal(d.take(k)) <= decimal(d),
    decreases d.len() - k,
{
    if k < d.len() {
        lemma_decimal_grows(d, k + 1);
        assert(d.take(k + 1).drop_last() =~= d.take(k));
        assert(decimal(d.take(k)) <= decimal(d.take(k)) * 10) by (nonlinear_arith);
    } else {
        assert(d.take(k) =~= d);
    }
}

/// Parses a port number as `u16::from_str` does.
pub fn parse_port(s: &str) -> (r: Option<u16>)
    ensures
        r == parse_u16(s@),
{
    let n = s.unicode_len();
    let start: usize = if n > 0 && s.get_char(0) == '+' {
        1
    } else {
        0
    };
    let ghost d = if s@.len() > 0 && s@[0] == '+' {
        s@.drop_first()
    } else {
        s@
    };
    assert(d =~= s@.skip(start as int));
    if start == n {
        return None;
    }
    let mut acc: u32 = 0;
    let mut i: usize = start;
    while i < n
        invariant
            n == s@.len(),
            start <= i <= n,
            start < n,
            d == s@.skip(start as int),
            d == unsigned_part(s@),
            acc == decimal(d.take(i - start)),
            acc <= u16::MAX,
            forall|j: int| 0 <= j < i - start ==> is_digit(#[trigger] d[j]),
        decreases n - i,
    {
        let c = s.get_char(i);
        assert(d[i - start] == c);
        if !('0' <= c && c <= '9') {
            assert(!is_digit(d[i - start]));
            assert(!all_digits(d));
            return None;
        }
        let v = (c as u32) - ('0' as u32);
        assert(d.take(i - start + 1).drop_last() =~= d.take(i - start));
        assert(d.take(i - start + 1).last() == c);
        assert(v == digit_value(c));
        assert(acc * 10 + v <= 65535 * 10 + 9) by (nonlinear_arith)
            requires
                acc <= 65535,
                v <= 9,
        ;
        let next = acc * 10 + v;
        assert(decimal(d.take(i - start + 1)) == acc * 10 + v);
        if next > 65535 {
            proof {
                lemma_decimal_grows(d, i - start + 1);
            }
            return None;
        }
        acc = next;
        i = i + 1;
    }
    assert(d.take(n - start) =~= d);
    Some(acc as u16)
}

/// The port used when none (or no valid one) is given.
pub const DEFAULT_PORT: u16 = 3000;

/// A setting as given, or its default.
fn or_default(value: Option<String>, default: &str) -> (r: String)
    ensures
        match value {
            Some(v) => r == v,
            None => r@ == default@,
        },
{
    match value {
        Some(v) => v,
        None => default.to_string(),
    }
}

/// The default of each setting.
pub open spec fn default_owner_username() -> Seq<char> {
    "admin"@
}

pub open spec fn default_owner_password() -> Seq<char> {
    "change-me"@
}

pub open spec fn default_owner_system_prompt() -> Seq<char> {
    "You are a helpful assistant for the system owner."@
}

pub open spec fn default_user_system_prompt() -> Seq<char> {
    "You are a helpful assistant."@
}

pub open spec fn default_ai_provider() -> Seq<char> {
    "openai"@
}

pub open spec fn default_ai_model() -> Seq<char> {
    "Hermes-3-Llama-3.1-8B-Q6_K_L"@
}

pub open spec fn default_ai_base_url() -> Seq<char> {
    "http://192.168.1.50:8080"@
}

/// A given setting, or its default.
pub open spec fn setting(value: Option<String>, default: Seq<char>) -> Seq<char> {
    match value {
        Some(v) => v@,
        None => default,
    }
}

impl AppConfig {
    /// The configuration from the settings that are given (each `None` when
    /// it is not set): the port is used when it parses, and every other
    /// missing setting takes its default.
    pub fn from_settings(
        backend_port: Option<String>,
        database_url: Option<String>,
        redis_url: Option<String>,
        owner_username: Option<String>,
        owner_password: Option<String>,
        owner_system_prompt: Option<String>,
        user_system_prompt: Option<String>,
        ai_provider: Option<String>,
        ai_api_key: Option<String>,
        ai_model: Option<String>,
        ai_base_url: Option<String>,
    ) -> (r: Self)
        ensures
            r.backend_port == match backend_port {
                Some(p) => match parse_u16(p@) {
                    Some(v) => v,
                    None => DEFAULT_PORT,
                },
                None => DEFAULT_PORT,
            },
            r.database_url == database_url,
            r.redis_url == redis_url,
            r.owner_username@ == setting(owner_username, default_owner_username()),
            r.owner_password@ == setting(owner_password, default_owner_password()),
            r.owner_system_prompt@ == setting(owner_system_prompt, default_owner_system_prompt()),
            r.user_system_prompt@ == setting(user_system_prompt, default_user_system_prompt()),
            r.ai_provider@ == setting(ai_provider, default_ai_provider()),
            r.ai_api_key@ == setting(ai_api_key, Seq::empty()),
            r.ai_model@ == setting(ai_model, default_ai_model()),
            r.ai_base_url@ == setting(ai_base_url, default_ai_base_url()),
    {
        proof {
            reveal_strlit("");
        }
        let port = match backend_port {
            Some(p) => match parse_port(p.as_str()) {
                Some(v) => v,
                None => DEFAULT_PORT,
            },
            None => DEFAULT_PORT,
        };
        AppConfig {
            backend_port: port,
            database_url,
            redis_url,
            owner_username: or_default(owner_username, "admin"),
            owner_password: or_default(owner_password, "change-me"),
            owner_system_prompt: or_default(
                owner_system_prompt,
                "You are a helpful assistant for the system owner.",
            ),
            user_system_prompt: or_default(user_system_prompt, "You are a helpful assistant."),
            ai_provider: or_default(ai_provider, "openai"),
            ai_api_key: or_default(ai_api_key, ""),
            ai_model: or_default(ai_model, "Hermes-3-Llama-3.1-8B-Q6_K_L"),
            ai_base_url: or_default(ai_base_url, "http://192.168.1.50:8080"),
        }
    }
}

} // verus!
