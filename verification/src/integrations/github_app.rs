//! GitHub App support: installation URLs, the app id and key settings, the
//! pagination of installation repositories, and webhook signature checks.

use vstd::prelude::*;

use crate::text::{
    chars_of, has_prefix, push_char, push_str, string_from_literal, string_from_slice, trim,
    trim_nonblank, trim_nonblank_str, trim_str, vec_has_prefix,
};
use vstd::utf8::encode_utf8;

verus! {

/// Errors of GitHub App configuration and API calls; transport failures
/// carry the HTTP client's message.
#[derive(Debug, Clone)]
pub enum GithubAppError {
    InvalidAppId,
    PrivateKey(String),
    Jwt(String),
    Http(String),
    Api(String),
    Parse(String),
}

/// Display text of a [`GithubAppError`].
pub open spec fn github_app_error_text(e: GithubAppError) -> Seq<char> {
    match e {
        GithubAppError::InvalidAppId => "GITHUB_APP_ID is set but could not be parsed as a u64"@,
        GithubAppError::PrivateKey(m) => "GitHub App private key: "@ + m@,
        GithubAppError::Jwt(m) => "JWT encode error: "@ + m@,
        GithubAppError::Http(m) => "HTTP error: "@ + m@,
        GithubAppError::Api(m) => "GitHub API error: "@ + m@,
        GithubAppError::Parse(m) => "parse error: "@ + m@,
    }
}

impl GithubAppError {
    /// Display text of the error.
    pub fn to_string(&self) -> (s: String)
        ensures
            s@ == github_app_error_text(*self),
    {
        match self {
            GithubAppError::InvalidAppId => string_from_literal(
                "GITHUB_APP_ID is set but could not be parsed as a u64",
            ),
            GithubAppError::PrivateKey(m) => crate::text::concat2(
                "GitHub App private key: ",
                m.as_str(),
            ),
            GithubAppError::Jwt(m) => crate::text::concat2("JWT encode error: ", m.as_str()),
            GithubAppError::Http(m) => crate::text::concat2("HTTP error: ", m.as_str()),
            GithubAppError::Api(m) => crate::text::concat2("GitHub API error: ", m.as_str()),
            GithubAppError::Parse(m) => crate::text::concat2("parse error: ", m.as_str()),
        }
    }
}

/// Loaded GitHub App credentials for signing app tokens.
#[derive(Debug, Clone)]
pub struct GithubAppCredentials {
    app_id: u64,
    private_key_pem: String,
}

/// Value of a decimal digit character.
pub open spec fn digit_value(c: char) -> int {
    (c as int) - 48
}

/// `c` is an ASCII decimal digit.
pub open spec fn is_digit(c: char) -> bool {
    '0' <= c && c <= '9'
}

/// Value of a string of decimal digits.
pub open spec fn digits_value(s: Seq<char>) -> int
    decreases s.len(),
{
    if s.len() == 0 {
        0
    } else {
        digits_value(s.drop_last()) * 10 + digit_value(s.last())
    }
}

/// `s` without one leading `+`.
pub open spec fn unsigned_part(s: Seq<char>) -> Seq<char> {
    if s.len() > 0 && s[0] == '+' {
        s.skip(1)
    } else {
        s
    }
}

/// Every character of `d` is a decimal digit.
pub open spec fn all_digits(d: Seq<char>) -> bool {
    forall|i: int| 0 <= i < d.len() ==> is_digit(#[trigger] d[i])
}

/// What `str::parse::<u64>` gives: an optional `+`, then at least one
/// decimal digit, with a value that fits in a `u64`.
pub open spec fn parse_u64_text(s: Seq<char>) -> Option<u64> {
    let d = unsigned_part(s);
    if d.len() > 0 && all_digits(d) && digits_value(d) <= u64::MAX {
        Some(digits_value(d) as u64)
    } else {
        None
    }
}

proof fn lemma_digits_value_nonneg(s: Seq<char>)
    requires
        forall|i: int| 0 <= i < s.len() ==> is_digit(#[trigger] s[i]),
    ensures
        digits_value(s) >= 0,
    decreases s.len(),
{
    if s.len() > 0 {
        lemma_digits_value_nonneg(s.drop_last());
    }
}

proof fn lemma_digits_value_grows(s: Seq<char>, i: int)
    requires
        0 <= i <= s.len(),
        forall|k: int| 0 <= k < s.len() ==> is_digit(#[trigger] s[k]),
    ensures
        digits_value(s.take(i)) <= digits_value(s),
    decreases s.len() - i,
{
    if i < s.len() {
        lemma_digits_value_grows(s, i + 1);
        assert(s.take(i + 1).drop_last() == s.take(i));
        lemma_digits_value_nonneg(s.take(i));
    } else {
        assert(s.take(i) == s);
    }
}

/// Decimal text as a `u64` (`str::parse::<u64>`), `None` when it is not a
/// decimal number or does not fit.
pub fn parse_u64(s: &str) -> (r: Option<u64>)
    ensures
        r == parse_u64_text(s@),
{
    let cs = chars_of(s);
    let start: usize = if cs.len() > 0 && cs[0] == '+' {
        1
    } else {
        0
    };
    let ghost d = unsigned_part(s@);
    assert(d == cs@.skip(start as int));
    if start >= cs.len() {
        return None;
    }
    let mut v: u64 = 0;
    let mut i: usize = start;
    while i < cs.len()
        invariant
            start <= i <= cs.len(),
            cs@ == s@,
            d == unsigned_part(s@),
            d == cs@.skip(start as int),
            forall|k: int| start <= k < i ==> is_digit(#[trigger] cs@[k]),
            v == digits_value(cs@.subrange(start as int, i as int)),
        decreases cs.len() - i,
    {
        let c = cs[i];
        assert(cs@.subrange(start as int, i + 1).drop_last() == cs@.subrange(start as int, i as int));
        if !('0' <= c && c <= '9') {
            assert(d[(i - start) as int] == c);
            assert(!is_digit(d[(i - start) as int]));
            assert(!all_digits(d));
            return None;
        }
        let digit: u64 = (c as u32 - 48) as u64;
        assert(digit == digit_value(c));
        if v > (u64::MAX - digit) / 10 {
            proof {
                let k = (i + 1 - start) as int;
                assert(cs@.subrange(start as int, i + 1).last() == c);
                assert(digits_value(cs@.subrange(start as int, i + 1)) == v * 10 + digit);
                assert(d.take(k) == cs@.subrange(start as int, i + 1));
                assert(v * 10 + digit > u64::MAX) by (nonlinear_arith)
                    requires
                        v > (u64::MAX - digit) / 10,
                        digit <= 9,
                ;
                if all_digits(d) {
                    lemma_digits_value_grows(d, k);
                }
            }
            return None;
        }
        assert(v * 10 + digit <= u64::MAX) by (nonlinear_arith)
            requires
                v <= (u64::MAX - digit) / 10,
                digit <= 9,
        ;
        v = v * 10 + digit;
        i = i + 1;
    }
    assert(cs@.subrange(start as int, cs.len() as int) == d);
    Some(v)
}

/// The app id setting: absent or blank means no GitHub App is configured;
/// otherwise its trimmed text must be a `u64`.
pub fn parse_app_id_setting(raw: Option<&str>) -> (r: Result<Option<u64>, GithubAppError>)
    ensures
        match raw {
            None => r == Ok::<Option<u64>, GithubAppError>(None),
            Some(s) => if trim(s@).len() == 0 {
                r == Ok::<Option<u64>, GithubAppError>(None)
            } else {
                match parse_u64_text(trim(s@)) {
                    Some(v) => r == Ok::<Option<u64>, GithubAppError>(Some(v)),
                    None => r matches Err(GithubAppError::InvalidAppId),
                }
            },
        },
{
    match raw {
        None => Ok(None),
        Some(s) => {
            let t = trim_str(s);
            if t.as_str().is_empty() {
                return Ok(None);
            }
            match parse_u64(t.as_str()) {
                Some(v) => Ok(Some(v)),
                None => Err(GithubAppError::InvalidAppId),
            }
        },
    }
}

/// `s` with every two-character sequence backslash, `n` replaced by a
/// newline, scanning left to right.
pub open spec fn unescape_newlines(s: Seq<char>) -> Seq<char>
    decreases s.len(),
{
    if s.len() == 0 {
        s
    } else if s.len() >= 2 && s[0] == '\\' && s[1] == 'n' {
        seq!['\n'] + unescape_newlines(s.skip(2))
    } else {
        seq![s[0]] + unescape_newlines(s.skip(1))
    }
}

/// A private key given inline: `None` when blank, else the text with each
/// escaped `\n` turned into a newline (`str::replace("\\n", "\n")`).
pub fn pem_from_inline(value: &str) -> (r: Option<String>)
    ensures
        trim(value@).len() == 0 ==> r is None,
        trim(value@).len() > 0 ==> r is Some && r.unwrap()@ == unescape_newlines(value@),
{
    let t = trim_str(value);
    if t.as_str().is_empty() {
        return None;
    }
    let cs = chars_of(value);
    let mut out = String::new();
    let mut i: usize = 0;
    assert(cs@.skip(0) == cs@);
    assert(out@ + unescape_newlines(cs@) == unescape_newlines(cs@));
    while i < cs.len()
        invariant
            i <= cs.len(),
            cs@ == value@,
            out@ + unescape_newlines(cs@.skip(i as int)) == unescape_newlines(value@),
        decreases cs.len() - i,
    {
        let ghost rest = cs@.skip(i as int);
        if i + 1 < cs.len() && cs[i] == '\\' && cs[i + 1] == 'n' {
            assert(rest.skip(2) == cs@.skip(i + 2));
            push_char(&mut out, '\n');
            assert(out@ + unescape_newlines(cs@.skip(i + 2)) == unescape_newlines(value@));
            i = i + 2;
        } else {
            assert(rest.skip(1) == cs@.skip(i + 1));
            push_char(&mut out, cs[i]);
            assert(out@ + unescape_newlines(cs@.skip(i + 1)) == unescape_newlines(value@));
            i = i + 1;
        }
    }
    assert(cs@.skip(cs.len() as int) == Seq::<char>::empty());
    assert(out@ + Seq::<char>::empty() == out@);
    Some(out)
}

impl GithubAppCredentials {
    /// The app id these credentials hold.
    pub closed spec fn id_view(&self) -> u64 {
        self.app_id
    }

    /// The private key text these credentials hold.
    pub closed spec fn key_view(&self) -> Seq<char> {
        self.private_key_pem@
    }

    /// Credentials from a parsed app id and its PEM-encoded private key.
    pub fn new(app_id: u64, private_key_pem: String) -> (c: Self)
        ensures
            c.id_view() == app_id,
            c.key_view() == private_key_pem@,
    {
        GithubAppCredentials { app_id, private_key_pem }
    }

    /// The numeric GitHub App id.
    pub fn app_id(&self) -> (id: u64)
        ensures
            id == self.id_view(),
    {
        self.app_id
    }

    /// The PEM-encoded private key used to sign app tokens.
    pub fn private_key_pem(&self) -> (k: &str)
        ensures
            k@ == self.key_view(),
    {
        self.private_key_pem.as_str()
    }

    /// Installation page of the app `slug`, carrying `state` for the
    /// callback; both are percent-encoded.
    pub fn installations_new_url(slug: &str, state: &str) -> (u: String)
        ensures
            u@ == install_url_text(slug@, state@),
    {
        let mut u = string_from_literal("https://github.com/apps/");
        let s = urlencoding_encode(slug);
        push_str(&mut u, s.as_str());
        push_str(&mut u, "/installations/new?state=");
        let t = urlencoding_encode(state);
        push_str(&mut u, t.as_str());
        u
    }
}

/// Installation page of app `slug` carrying `state`, both percent-encoded.
pub open spec fn install_url_text(slug: Seq<char>, state: Seq<char>) -> Seq<char> {
    "https://github.com/apps/"@ + url_encode(encode_utf8(slug)) + "/installations/new?state="@
        + url_encode(encode_utf8(state))
}

/// Byte kept as is in a URL component: ASCII letters, digits, `-_.~`.
pub open spec fn unreserved(b: u8) -> bool {
    (48 <= b <= 57) || (65 <= b <= 90) || (97 <= b <= 122) || b == 45 || b == 95 || b == 46 || b
        == 126
}

/// Uppercase hexadecimal digit for `n` in `0..16`.
pub open spec fn hex_upper(n: int) -> char {
    if n < 10 {
        (n + 48) as char
    } else {
        (n + 55) as char
    }
}

/// Percent-encoding of UTF-8 bytes: unreserved bytes stay, every other byte
/// becomes `%XX` with uppercase hex digits.
pub open spec fn url_encode(bytes: Seq<u8>) -> Seq<char>
    decreases bytes.len(),
{
    if bytes.len() == 0 {
        Seq::empty()
    } else {
        let b = bytes.last();
        url_encode(bytes.drop_last()) + if unreserved(b) {
            seq![b as char]
        } else {
            seq!['%', hex_upper(b as int / 16), hex_upper(b as int % 16)]
        }
    }
}

fn hex_upper_char(n: u8) -> (c: char)
    requires
        n < 16,
    ensures
        c == hex_upper(n as int),
{
    if n < 10 {
        (n + 48) as char
    } else {
        (n + 55) as char
    }
}

/// Percent-encode `s` for a URL component: ASCII letters, digits and
/// `-_.~` stay, every other character becomes the `%XX` escapes of its
/// UTF-8 bytes.
pub fn urlencoding_encode(s: &str) -> (r: String)
    ensures
        r@ == url_encode(encode_utf8(s@)),
{
    let bytes = s.as_bytes();
    let mut r = String::new();
    let mut i: usize = 0;
    while i < bytes.len()
        invariant
            i <= bytes@.len(),
            bytes@ == encode_utf8(s@),
            r@ == url_encode(bytes@.take(i as int)),
        decreases bytes@.len() - i,
    {
        let b = bytes[i];
        assert(bytes@.take(i + 1).drop_last() == bytes@.take(i as int));
        if (48 <= b && b <= 57) || (65 <= b && b <= 90) || (97 <= b && b <= 122) || b == 45 || b
            == 95 || b == 46 || b == 126 {
            push_char(&mut r, b as char);
        } else {
            push_char(&mut r, '%');
            push_char(&mut r, hex_upper_char(b / 16));
            push_char(&mut r, hex_upper_char(b % 16));
        }
        i = i + 1;
    }
    assert(bytes@.take(bytes@.len() as int) == bytes@);
    r
}

/// The trimmed app slug setting, `None` when absent or blank.
pub fn github_app_slug(raw: Option<&str>) -> (r: Option<String>)
    ensures
        r is Some == trim_nonblank(
            match raw {
                Some(s) => Some(s@),
                None => None,
            },
        ) is Some,
        r is Some ==> trim_nonblank(
            match raw {
                Some(s) => Some(s@),
                None => None,
            },
        ) == Some(r.unwrap()@),
{
    match trim_nonblank_str(raw) {
        Some(s) => Some(s),
        None => None,
    }
}

/// Page to request after page `page` of installation repositories returned
/// `count` entries: none when the page was short (under 100) or the next
/// would pass page 50.
pub fn next_repositories_page(page: u32, count: usize) -> (r: Option<u32>)
    ensures
        r == (if count < 100 || page >= 50 {
            None::<u32>
        } else {
            Some((page + 1) as u32)
        }),
{
    if count < 100 || page >= 50 {
        None
    } else {
        Some(page + 1)
    }
}

/// Value of an ASCII hex digit byte.
pub open spec fn hex_byte_value(c: u8) -> u8 {
    if 65 <= c <= 70 {
        (c - 55) as u8
    } else if 97 <= c <= 102 {
        (c - 87) as u8
    } else {
        (c - 48) as u8
    }
}

/// `c` is an ASCII hex digit byte (either case).
pub open spec fn is_hex_byte(c: u8) -> bool {
    (48 <= c <= 57) || (65 <= c <= 70) || (97 <= c <= 102)
}

/// What `hex::decode` gives for input bytes `b`: `None` for an odd length
/// or a byte that is not a hex digit, else one byte per pair of digits.
pub open spec fn hex_decode_text(b: Seq<u8>) -> Option<Seq<u8>> {
    if b.len() % 2 == 0 && (forall|i: int| 0 <= i < b.len() ==> is_hex_byte(#[trigger] b[i])) {
        Some(
            Seq::new(
                b.len() / 2,
                |i: int| (hex_byte_value(b[2 * i]) * 16 + hex_byte_value(b[2 * i + 1])) as u8,
            ),
        )
    } else {
        None
    }
}

/// Decode hex text (`hex::decode`): digits of either case, in pairs.
#[verifier::external_body]
fn hex_decode(s: &str) -> (r: Option<Vec<u8>>)
    ensures
        match r {
            Some(v) => hex_decode_text(encode_utf8(s@)) == Some(v@),
            None => hex_decode_text(encode_utf8(s@)) is None,
        },
{
    hex::decode(s).ok()
}

/// HMAC-SHA256 of `msg` under `key`.
pub uninterp spec fn hmac_sha256(key: Seq<u8>, msg: Seq<u8>) -> Seq<u8>;

/// HMAC-SHA256 tag of `msg` under `key` (`hmac::Hmac<sha2::Sha256>`);
/// keys of any length are accepted and the tag has 32 bytes.
#[verifier::external_body]
fn hmac_sha256_tag(key: &[u8], msg: &[u8]) -> (tag: Vec<u8>)
    ensures
        tag@ == hmac_sha256(key@, msg@),
        tag@.len() == 32,
{
    let mut mac = <hmac::Hmac<sha2::Sha256> as hmac::Mac>::new_from_slice(key).unwrap();
    hmac::Mac::update(&mut mac, msg);
    hmac::Mac::finalize(mac).into_bytes().to_vec()
}

/// Equality of two byte strings in time independent of their contents
/// (`subtle::ConstantTimeEq` on slices).
#[verifier::external_body]
fn constant_time_eq(a: &[u8], b: &[u8]) -> (r: bool)
    ensures
        r == (a@ == b@),
{
    subtle::ConstantTimeEq::ct_eq(a, b).into()
}

/// Whether `X-Hub-Signature-256` (`sha256=<hex>`) is the HMAC-SHA256 of
/// `body` under `secret`.
pub fn verify_webhook_signature(secret: &[u8], body: &[u8], signature_header: &str) -> (ok: bool)
    ensures
        ok == (has_prefix(signature_header@, "sha256="@) && hex_decode_text(
            encode_utf8(trim(signature_header@.skip(7))),
        ) == Some(hmac_sha256(secret@, body@))),
{
    let hv = chars_of(signature_header);
    let p = chars_of("sha256=");
    proof {
        reveal_strlit("sha256=");
    }
    if !vec_has_prefix(&hv, &p) {
        return false;
    }
    let hex_part = string_from_slice(&hv, 7, hv.len());
    let t = trim_str(hex_part.as_str());
    let expected = match hex_decode(t.as_str()) {
        Some(v) => v,
        None => {
            return false;
        },
    };
    let computed = hmac_sha256_tag(secret, body);
    if computed.len() != expected.len() {
        return false;
    }
    constant_time_eq(computed.as_slice(), expected.as_slice())
}

} // verus!
