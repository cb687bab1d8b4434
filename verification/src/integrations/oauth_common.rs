//! Shared OAuth helpers: the CSRF `state` token and the page shown after a
//! successful callback.

use vstd::prelude::*;

use crate::text::{push_char, push_str, string_from_literal};

verus! {

/// Lowercase hexadecimal digit for `n` in `0..16`.
pub open spec fn hex_digit(n: int) -> char {
    if n < 10 {
        (n + 48) as char
    } else {
        (n + 87) as char
    }
}

/// Lowercase hexadecimal text of `bytes`, two digits per byte (`{:02x}`).
pub open spec fn hex_lower(bytes: Seq<u8>) -> Seq<char>
    decreases bytes.len(),
{
    if bytes.len() == 0 {
        Seq::empty()
    } else {
        hex_lower(bytes.drop_last()) + seq![
            hex_digit(bytes.last() as int / 16),
            hex_digit(bytes.last() as int % 16),
        ]
    }
}

/// `c` is one of `0-9`, `a-f`.
pub open spec fn is_lower_hex_digit(c: char) -> bool {
    ('0' <= c && c <= '9') || ('a' <= c && c <= 'f')
}

/// The hexadecimal text of `n` bytes has `2 * n` lowercase hex digits.
pub proof fn lemma_hex_lower_shape(bytes: Seq<u8>)
    ensures
        hex_lower(bytes).len() == 2 * bytes.len(),
        forall|i: int| 0 <= i < hex_lower(bytes).len() ==> is_lower_hex_digit(#[trigger] hex_lower(bytes)[i]),
    decreases bytes.len(),
{
    if bytes.len() > 0 {
        lemma_hex_lower_shape(bytes.drop_last());
        let h = hex_lower(bytes.drop_last());
        let hi = bytes.last() as int / 16;
        let lo = bytes.last() as int % 16;
        assert(0 <= hi < 16 && 0 <= lo < 16);
        assert(is_lower_hex_digit(hex_digit(hi)));
        assert(is_lower_hex_digit(hex_digit(lo)));
        assert forall|i: int| 0 <= i < hex_lower(bytes).len() implies is_lower_hex_digit(
            #[trigger] hex_lower(bytes)[i],
        ) by {
            if i < h.len() {
                assert(hex_lower(bytes)[i] == h[i]);
            }
        }
    }
}

fn hex_digit_char(n: u8) -> (c: char)
    requires
        n < 16,
    ensures
        c == hex_digit(n as int),
{
    if n < 10 {
        (n + 48) as char
    } else {
        (n + 87) as char
    }
}

/// Lowercase hexadecimal text of `bytes`.
pub fn encode_hex_lower(bytes: &Vec<u8>) -> (s: String)
    ensures
        s@ == hex_lower(bytes@),
{
    let mut s = String::new();
    let mut i: usize = 0;
    while i < bytes.len()
        invariant
            i <= bytes.len(),
            s@ == hex_lower(bytes@.take(i as int)),
        decreases bytes.len() - i,
    {
        let b = bytes[i];
        push_char(&mut s, hex_digit_char(b / 16));
        push_char(&mut s, hex_digit_char(b % 16));
        i = i + 1;
        assert(bytes@.take(i as int).drop_last() == bytes@.take(i - 1));
    }
    assert(bytes@.take(bytes.len() as int) == bytes@);
    s
}

/// Sixteen bytes from the thread-local cryptographic generator
/// (`rand::thread_rng().fill_bytes`). Nothing is claimed of their values.
#[verifier::external_body]
fn random_bytes_16() -> (b: Vec<u8>)
    ensures
        b.len() == 16,
{
    let mut bytes = [0u8; 16];
    rand::RngCore::fill_bytes(&mut rand::thread_rng(), &mut bytes);
    bytes.to_vec()
}

/// Cryptographically random CSRF `state` for authorize → callback
/// correlation: the lowercase hex text of sixteen random bytes.
pub fn random_oauth_state() -> (s: String)
    ensures
        exists|b: Seq<u8>| b.len() == 16 && s@ == hex_lower(b),
        s@.len() == 32,
        forall|i: int| 0 <= i < s@.len() ==> is_lower_hex_digit(#[trigger] s@[i]),
{
    let bytes = random_bytes_16();
    let s = encode_hex_lower(&bytes);
    proof {
        lemma_hex_lower_shape(bytes@);
    }
    s
}

/// Text of the success page before the provider's name.
pub open spec fn success_page_head() -> Seq<char> {
    r#"<!DOCTYPE html>
<html lang="en">
<head>
  <meta charset="utf-8">
  <title>"#@
}

/// Text of the success page between the two occurrences of the provider's name.
pub open spec fn success_page_middle() -> Seq<char> {
    r#" Connected</title>
  <style>
    *{margin:0;padding:0;box-sizing:border-box}
    body{display:flex;align-items:center;justify-content:center;min-height:100vh;
         background:#0d0d14;font-family:-apple-system,BlinkMacSystemFont,"Segoe UI",sans-serif;color:#e2e2ea}
    .card{text-align:center;padding:48px 40px;background:#16161f;border:1px solid #2a2a3a;border-radius:12px;max-width:420px}
    .icon{font-size:48px;margin-bottom:16px}
    h1{font-size:20px;font-weight:600;margin-bottom:8px}
    p{font-size:14px;color:#888;margin-bottom:16px;line-height:1.5}
    a{color:#7c9cff;text-decoration:none}
    a:hover{text-decoration:underline}
    .links{font-size:13px;color:#888;margin-bottom:20px}
    .links a{display:inline-block;margin:6px 8px}
    .closing{font-size:12px;color:#555}
  </style>
</head>
<body>
  <div class="card">
    <div class="icon">✓</div>
    <h1>"#@
}

/// Text of the success page after the provider's name.
pub open spec fn success_page_tail() -> Seq<char> {
    r#" connected</h1>
    <p>Return to the UI to use this integration. If this tab does not close, use a link below.</p>
    <p class="links">
      <a href="/settings">Open Settings (this origin)</a><br/>
      <a href="http://127.0.0.1:5173/settings">Vite dev UI (port 5173)</a>
    </p>
    <div class="closing">This tab will try to close automatically…</div>
  </div>
  <script>
    setTimeout(function(){window.close()}, 2000);
  </script>
</body>
</html>"#@
}

/// Minimal HTML page shown after a successful browser or deep-link OAuth
/// callback; it names `provider` in its title and heading.
pub fn oauth_success_html(provider: &str) -> (s: String)
    ensures
        s@ == success_page_head() + provider@ + success_page_middle() + provider@
            + success_page_tail(),
{
    let mut s = string_from_literal(r#"<!DOCTYPE html>
<html lang="en">
<head>
  <meta charset="utf-8">
  <title>"#);
    push_str(&mut s, provider);
    push_str(&mut s, r#" Connected</title>
  <style>
    *{margin:0;padding:0;box-sizing:border-box}
    body{display:flex;align-items:center;justify-content:center;min-height:100vh;
         background:#0d0d14;font-family:-apple-system,BlinkMacSystemFont,"Segoe UI",sans-serif;color:#e2e2ea}
    .card{text-align:center;padding:48px 40px;background:#16161f;border:1px solid #2a2a3a;border-radius:12px;max-width:420px}
    .icon{font-size:48px;margin-bottom:16px}
    h1{font-size:20px;font-weight:600;margin-bottom:8px}
    p{font-size:14px;color:#888;margin-bottom:16px;line-height:1.5}
    a{color:#7c9cff;text-decoration:none}
    a:hover{text-decoration:underline}
    .links{font-size:13px;color:#888;margin-bottom:20px}
    .links a{display:inline-block;margin:6px 8px}
    .closing{font-size:12px;color:#555}
  </style>
</head>
<body>
  <div class="card">
    <div class="icon">✓</div>
    <h1>"#);
    push_str(&mut s, provider);
    push_str(&mut s, r#" connected</h1>
    <p>Return to the UI to use this integration. If this tab does not close, use a link below.</p>
    <p class="links">
      <a href="/settings">Open Settings (this origin)</a><br/>
      <a href="http://127.0.0.1:5173/settings">Vite dev UI (port 5173)</a>
    </p>
    <div class="closing">This tab will try to close automatically…</div>
  </div>
  <script>
    setTimeout(function(){window.close()}, 2000);
  </script>
</body>
</html>"#);
    s
}

} // verus!
