//! What every request of a run shares: the base URL, the default headers and the timeouts.

use crate::trusted::{
    cookie_name, header_byte_allowed, header_bytes_allowed, header_map_fields, header_map_new,
    header_map_try_insert, header_value_from_str, user_agent_name, HeaderFields,
};
use crate::text::{trim, trimmed};
use reqwest::header::{HeaderMap, HeaderValue};
use vstd::pervasive::unreached;
use vstd::prelude::*;
use vstd::string::{StringExecFns, StringSliceAdditionalSpecFns};
use vstd::utf8::{char_is_scalar, encode_scalar, encode_utf8, is_scalar};

verus! {

/// The time allowed for one request as a whole, in seconds.
pub const TIMEOUT_SECS: u64 = 15;

/// The time allowed for connecting, in seconds.
pub const CONNECT_TIMEOUT_SECS: u64 = 10;

/// Why there is no configuration.
#[derive(Clone, Copy, Debug, PartialEq, Eq, Structural)]
pub enum ConfigError {
    /// No base URL was given.
    MissingBaseUrl,
    /// The cookie holds a byte that no header value may hold.
    InvalidCookie,
    /// The user agent holds a byte that no header value may hold.
    InvalidUserAgent,
}

/// The values of the default headers, as texts.
pub struct HeaderPlan {
    /// The value of the `cookie` header, if one is sent.
    pub cookie: Option<String>,
    /// The value of the `user-agent` header.
    pub user_agent: String,
}

/// What the requests of a run share.
pub struct HttpClientConfig {
    /// The text that each code is appended to.
    pub base_url: String,
    /// The headers that every request carries.
    pub headers: HeaderMap<HeaderValue>,
    /// The time allowed for one request as a whole, in seconds.
    pub timeout_secs: u64,
    /// The time allowed for connecting, in seconds.
    pub connect_timeout_secs: u64,
}

/// The name of the `cookie` header.
pub open spec fn cookie_field() -> Seq<char> {
    seq!['c', 'o', 'o', 'k', 'i', 'e']
}

/// The name of the `user-agent` header.
pub open spec fn user_agent_field() -> Seq<char> {
    seq!['u', 's', 'e', 'r', '-', 'a', 'g', 'e', 'n', 't']
}

/// The user agent that is sent where none is given: `hyprsnipe-checker/0.1`.
pub open spec fn default_user_agent() -> Seq<char> {
    seq![
        'h', 'y', 'p', 'r', 's', 'n', 'i', 'p', 'e', '-', 'c', 'h', 'e', 'c', 'k', 'e', 'r', '/',
        '0', '.', '1',
    ]
}

/// The cookie to send: the given one, trimmed, unless none is given or nothing is left of it.
pub open spec fn planned_cookie(cookie: Option<Seq<char>>) -> Option<Seq<char>> {
    match cookie {
        Some(text) => if trimmed(text).len() > 0 {
            Some(trimmed(text))
        } else {
            None
        },
        None => None,
    }
}

/// The user agent to send: the given one as it stands, or the default where none is given.
pub open spec fn planned_user_agent(user_agent: Option<Seq<char>>) -> Seq<char> {
    match user_agent {
        Some(text) => text,
        None => default_user_agent(),
    }
}

/// Whether `text` may be the value of a header: whether each byte of its UTF-8 form is
/// allowed.
pub open spec fn value_allowed(text: Seq<char>) -> bool {
    header_bytes_allowed(encode_utf8(text))
}

/// The characters that may stand in the value of a header: the tab, and every character from
/// the space on but the one numbered 127.
pub open spec fn char_allowed(c: char) -> bool {
    let n: u32 = c as u32;
    (n >= 32 && n != 127) || n == 9
}

/// The bytes that write one character are allowed exactly where the character is.
proof fn lemma_scalar_allowed(v: u32)
    requires
        is_scalar(v),
    ensures
        header_bytes_allowed(encode_scalar(v)) <==> ((v >= 32 && v != 127) || v == 9),
{
    let bytes = encode_scalar(v);
    if v <= 0x7F {
        assert((v & 0x7F) as u8 == v) by (bit_vector)
            requires
                v <= 0x7F,
        ;
        assert(bytes[0] == v);
    } else {
        let a = ((v >> 6) & 0x1F) as u8;
        let b = ((v >> 12) & 0x0F) as u8;
        let c = ((v >> 18) & 0x7) as u8;
        let x = (v & 0x3F) as u8;
        let y = ((v >> 6) & 0x3F) as u8;
        let z = ((v >> 12) & 0x3F) as u8;
        assert(0xC0u8 | a >= 0x80) by (bit_vector);
        assert(0xE0u8 | b >= 0x80) by (bit_vector);
        assert(0xF0u8 | c >= 0x80) by (bit_vector);
        assert(0x80u8 | x >= 0x80) by (bit_vector);
        assert(0x80u8 | y >= 0x80) by (bit_vector);
        assert(0x80u8 | z >= 0x80) by (bit_vector);
        assert forall|i: int| 0 <= i < bytes.len() implies header_byte_allowed(
            #[trigger] bytes[i],
        ) by {}
    }
}

/// A text may be the value of a header exactly when each of its characters is allowed.
pub proof fn lemma_value_allowed_by_chars(text: Seq<char>)
    ensures
        value_allowed(text) <==> forall|i: int|
            0 <= i < text.len() ==> char_allowed(#[trigger] text[i]),
    decreases text.len(),
{
    if text.len() > 0 {
        let first = encode_scalar(text[0] as u32);
        let rest = text.drop_first();
        let tail = encode_utf8(rest);
        char_is_scalar(text[0]);
        lemma_scalar_allowed(text[0] as u32);
        lemma_value_allowed_by_chars(rest);
        if value_allowed(text) {
            assert forall|j: int| 0 <= j < first.len() implies header_byte_allowed(
                #[trigger] first[j],
            ) by {
                assert(first[j] == (first + tail)[j]);
            }
            assert forall|j: int| 0 <= j < tail.len() implies header_byte_allowed(
                #[trigger] tail[j],
            ) by {
                assert(tail[j] == (first + tail)[first.len() + j]);
            }
            assert forall|i: int| 0 <= i < text.len() implies char_allowed(#[trigger] text[i]) by {
                if i > 0 {
                    assert(text[i] == rest[i - 1]);
                }
            }
        }
        if forall|i: int| 0 <= i < text.len() ==> char_allowed(#[trigger] text[i]) {
            assert(char_allowed(text[0]));
            assert forall|i: int| 0 <= i < rest.len() implies char_allowed(#[trigger] rest[i]) by {
                assert(rest[i] == text[i + 1]);
            }
            assert forall|j: int| 0 <= j < (first + tail).len() implies header_byte_allowed(
                #[trigger] (first + tail)[j],
            ) by {
                if j < first.len() {
                    assert((first + tail)[j] == first[j]);
                } else {
                    assert((first + tail)[j] == tail[j - first.len()]);
                }
            }
        }
    }
}

/// Whether the cookie to send, if there is one, may be the value of a header.
pub open spec fn cookie_allowed(cookie: Option<Seq<char>>) -> bool {
    cookie matches Some(text) ==> value_allowed(text)
}

/// The header map for a cookie and a user agent: one value under `user-agent`, and one under
/// `cookie` where a cookie is sent.
pub open spec fn planned_fields(cookie: Option<Seq<char>>, user_agent: Seq<char>) -> HeaderFields {
    let with_cookie = match cookie {
        Some(text) => HeaderFields::empty().insert(cookie_field(), seq![encode_utf8(text)]),
        None => HeaderFields::empty(),
    };
    with_cookie.insert(user_agent_field(), seq![encode_utf8(user_agent)])
}

/// What building the headers for `cookie` and `user_agent` comes to. A cookie that is not
/// allowed is the first error, a user agent that is not allowed the second. Where both are
/// allowed, the headers are the planned ones.
pub open spec fn planned_headers(cookie: Option<Seq<char>>, user_agent: Seq<char>) -> Result<
    HeaderFields,
    ConfigError,
> {
    if !cookie_allowed(cookie) {
        Err(ConfigError::InvalidCookie)
    } else if !value_allowed(user_agent) {
        Err(ConfigError::InvalidUserAgent)
    } else {
        Ok(planned_fields(cookie, user_agent))
    }
}

/// What `built` holds, with the fields of the map in place of the map.
pub open spec fn fields_of(built: Result<HeaderMap<HeaderValue>, ConfigError>) -> Result<
    HeaderFields,
    ConfigError,
> {
    match built {
        Ok(map) => Ok(header_map_fields(map)),
        Err(error) => Err(error),
    }
}

/// The user agent that is sent where none is given.
pub fn default_user_agent_text() -> (text: String)
    ensures
        text@ == default_user_agent(),
{
    proof {
        reveal_strlit("hyprsnipe-checker/0.1");
    }
    let text = String::from_str("hyprsnipe-checker/0.1");
    assert(text@ =~= default_user_agent());
    text
}

/// Decides which header values to send. A cookie is trimmed, and is sent only if something
/// is left of it. The user agent is sent as given, and the default where none is given.
pub fn plan_headers(cookie: Option<String>, user_agent: Option<String>) -> (plan: HeaderPlan)
    ensures
        plan.cookie.deep_view() == planned_cookie(cookie.deep_view()),
        plan.user_agent@ == planned_user_agent(user_agent.deep_view()),
{
    let cookie = match cookie {
        Some(text) => {
            let kept = trim(text.as_str());
            if kept.as_str().is_empty() {
                None
            } else {
                Some(kept)
            }
        },
        None => None,
    };
    let user_agent = match user_agent {
        Some(text) => text,
        None => default_user_agent_text(),
    };
    HeaderPlan { cookie, user_agent }
}

/// Puts the header values of `plan` into a header map. Both values are tried before either is
/// put in.
pub fn fill_headers(plan: &HeaderPlan) -> (built: Result<HeaderMap<HeaderValue>, ConfigError>)
    ensures
        fields_of(built) == planned_headers(plan.cookie.deep_view(), plan.user_agent@),
{
    let cookie = match &plan.cookie {
        Some(text) => {
            match header_value_from_str(text.as_str()) {
                Ok(value) => Some(value),
                Err(_) => {
                    return Err(ConfigError::InvalidCookie);
                },
            }
        },
        None => None,
    };
    let user_agent = match header_value_from_str(plan.user_agent.as_str()) {
        Ok(value) => value,
        Err(_) => {
            return Err(ConfigError::InvalidUserAgent);
        },
    };
    let mut headers = header_map_new();
    assert(header_map_fields(headers).dom() =~= Set::empty());
    match cookie {
        Some(value) => {
            match header_map_try_insert(&mut headers, cookie_name(), value) {
                Ok(_) => {},
                Err(_) => unreached(),
            }
            assert(header_map_fields(headers).dom() =~= Set::empty().insert(cookie_field()));
        },
        None => {},
    }
    match header_map_try_insert(&mut headers, user_agent_name(), user_agent) {
        Ok(_) => Ok(headers),
        Err(_) => unreached(),
    }
}

/// The default headers for the given cookie and user agent.
pub fn build_headers(cookie: Option<String>, user_agent: Option<String>) -> (built: Result<
    HeaderMap<HeaderValue>,
    ConfigError,
>)
    ensures
        fields_of(built) == planned_headers(
            planned_cookie(cookie.deep_view()),
            planned_user_agent(user_agent.deep_view()),
        ),
{
    let plan = plan_headers(cookie, user_agent);
    fill_headers(&plan)
}

/// What `config` holds, with the fields of the header map in place of the configuration.
pub open spec fn header_fields_of(config: Result<HttpClientConfig, ConfigError>) -> Result<
    HeaderFields,
    ConfigError,
> {
    match config {
        Ok(made) => Ok(header_map_fields(made.headers)),
        Err(error) => Err(error),
    }
}

/// The configuration for the given base URL, cookie and user agent. Without a base URL there
/// is none, whatever the rest. With one, there is a configuration exactly when the headers
/// can be built, and it holds the base URL as given, those headers and the two timeouts.
pub fn client_config(
    base_url: Option<String>,
    cookie: Option<String>,
    user_agent: Option<String>,
) -> (config: Result<HttpClientConfig, ConfigError>)
    ensures
        header_fields_of(config) == (match base_url {
            None => Err(ConfigError::MissingBaseUrl),
            Some(_) => planned_headers(
                planned_cookie(cookie.deep_view()),
                planned_user_agent(user_agent.deep_view()),
            ),
        }),
        config matches Ok(made) ==> {
            &&& base_url matches Some(text) && made.base_url@ == text@
            &&& made.timeout_secs == TIMEOUT_SECS
            &&& made.connect_timeout_secs == CONNECT_TIMEOUT_SECS
        },
{
    match base_url {
        None => Err(ConfigError::MissingBaseUrl),
        Some(base_url) => {
            match build_headers(cookie, user_agent) {
                Ok(headers) => Ok(
                    HttpClientConfig {
                        base_url,
                        headers,
                        timeout_secs: TIMEOUT_SECS,
                        connect_timeout_secs: CONNECT_TIMEOUT_SECS,
                    },
                ),
                Err(error) => Err(error),
            }
        },
    }
}

} // verus!
