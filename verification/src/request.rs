//! Telling the tunnel client from a visitor by the first bytes of a connection.

use vstd::prelude::*;

verus! {

/// `std::str::from_utf8` succeeds on exactly the byte strings that are valid UTF-8.
#[verifier::external_body]
fn is_utf8(bytes: &[u8]) -> (valid: bool)
    ensures
        valid == vstd::utf8::valid_utf8(bytes@),
{
    std::str::from_utf8(bytes).is_ok()
}

/// How the request of a tunnel client that knows the token starts.
pub open spec fn prefix_text(secret_token: Seq<char>) -> Seq<char> {
    "GET /"@ + secret_token + " "@
}

/// Whether bytes are text that starts with `prefix`.
pub open spec fn text_starts_with(bytes: Seq<u8>, prefix: Seq<char>) -> bool {
    vstd::utf8::valid_utf8(bytes) && prefix.is_prefix_of(vstd::utf8::decode_utf8(bytes))
}

/// How the request of a tunnel client that knows the token starts.
pub fn tunnel_prefix(secret_token: &str) -> (prefix: String)
    ensures
        prefix@ == prefix_text(secret_token@),
        prefix@ == seq!['G', 'E', 'T', ' ', '/'] + secret_token@ + seq![' '],
{
    let mut prefix: String = String::new();
    prefix.append("GET /");
    prefix.append(secret_token);
    prefix.append(" ");
    proof {
        law_prefix_is_a_get_of_the_token(secret_token@);
    }
    assert(prefix@ =~= prefix_text(secret_token@));
    prefix
}

/// Whether the first bytes of a connection are those of the tunnel client. Bytes that are not text
/// are a visitor's.
pub fn is_tunnel_request(bytes: &[u8], prefix: &str) -> (is_tunnel: bool)
    ensures
        is_tunnel <==> text_starts_with(bytes@, prefix@),
        is_tunnel <==> vstd::utf8::valid_utf8(bytes@) && vstd::utf8::encode_utf8(
            prefix@,
        ).is_prefix_of(bytes@),
{
    if !is_utf8(bytes) {
        return false;
    }
    proof {
        lemma_prefix_of_text(prefix@, bytes@);
    }
    starts_with_bytes(bytes, prefix.as_bytes())
}

fn starts_with_bytes(bytes: &[u8], prefix: &[u8]) -> (yes: bool)
    ensures
        yes <==> prefix@.is_prefix_of(bytes@),
{
    if bytes.len() < prefix.len() {
        return false;
    }
    let n: usize = prefix.len();
    let mut i: usize = 0;
    while i < n
        invariant
            n == prefix@.len() <= bytes@.len(),
            i <= n,
            forall|j: int| 0 <= j < i ==> prefix@[j] == bytes@[j],
        decreases n - i,
    {
        if bytes[i] != prefix[i] {
            assert(bytes@.subrange(0, n as int)[i as int] == bytes@[i as int]);
            return false;
        }
        i = i + 1;
    }
    assert(prefix@ =~= bytes@.subrange(0, n as int));
    true
}

proof fn lemma_encode_concat(a: Seq<char>, b: Seq<char>)
    ensures
        vstd::utf8::encode_utf8(a + b) == vstd::utf8::encode_utf8(a) + vstd::utf8::encode_utf8(b),
    decreases a.len(),
{
    if a.len() == 0 {
        assert(a + b =~= b);
        assert(vstd::utf8::encode_utf8(a) + vstd::utf8::encode_utf8(b) =~= vstd::utf8::encode_utf8(b));
    } else {
        lemma_encode_concat(a.drop_first(), b);
        assert((a + b).drop_first() =~= a.drop_first() + b);
        assert(vstd::utf8::encode_utf8(a + b) =~= vstd::utf8::encode_utf8(a) + vstd::utf8::encode_utf8(b));
    }
}

proof fn lemma_decode_after_prefix(p: Seq<char>, rest: Seq<u8>)
    requires
        vstd::utf8::valid_utf8(vstd::utf8::encode_utf8(p) + rest),
    ensures
        vstd::utf8::valid_utf8(rest),
        vstd::utf8::decode_utf8(vstd::utf8::encode_utf8(p) + rest) == p + vstd::utf8::decode_utf8(rest),
    decreases p.len(),
{
    let bytes = vstd::utf8::encode_utf8(p) + rest;
    if p.len() == 0 {
        assert(bytes =~= rest);
        assert(p + vstd::utf8::decode_utf8(rest) =~= vstd::utf8::decode_utf8(rest));
    } else {
        vstd::utf8::encode_utf8_first_scalar(p);
        vstd::utf8::char_u32_cast(p[0], vstd::utf8::decode_first_scalar(vstd::utf8::encode_utf8(p)));
        let tail = vstd::utf8::encode_utf8(p.drop_first());
        assert(vstd::utf8::encode_utf8(p) == vstd::utf8::encode_scalar(p[0] as u32) + tail);
        assert(vstd::utf8::decode_first_scalar(bytes) == p[0] as u32);
        assert(vstd::utf8::pop_first_scalar(bytes) =~= tail + rest);
        lemma_decode_after_prefix(p.drop_first(), rest);
        assert(vstd::utf8::decode_utf8(bytes) =~= p + vstd::utf8::decode_utf8(rest));
    }
}

/// Text starts with a string if and only if its bytes start with the bytes of the string.
proof fn lemma_prefix_of_text(p: Seq<char>, bytes: Seq<u8>)
    requires
        vstd::utf8::valid_utf8(bytes),
    ensures
        vstd::utf8::encode_utf8(p).is_prefix_of(bytes) <==> p.is_prefix_of(vstd::utf8::decode_utf8(bytes)),
{
    let head = vstd::utf8::encode_utf8(p);
    let text = vstd::utf8::decode_utf8(bytes);
    if head.is_prefix_of(bytes) {
        let rest = bytes.subrange(head.len() as int, bytes.len() as int);
        assert(bytes =~= head + rest);
        lemma_decode_after_prefix(p, rest);
        assert(p =~= text.subrange(0, p.len() as int));
    }
    if p.is_prefix_of(text) {
        let rest = text.subrange(p.len() as int, text.len() as int);
        assert(text =~= p + rest);
        lemma_encode_concat(p, rest);
        vstd::utf8::decode_utf8_encode_utf8(bytes);
        assert(head =~= bytes.subrange(0, head.len() as int));
    }
}

/// The request of a tunnel client starts with the method, a slash, the token as it is, and a space.
pub proof fn law_prefix_is_a_get_of_the_token(secret_token: Seq<char>)
    ensures
        prefix_text(secret_token) == seq!['G', 'E', 'T', ' ', '/'] + secret_token + seq![' '],
{
    reveal_strlit("GET /");
    reveal_strlit(" ");
    assert("GET /"@ =~= seq!['G', 'E', 'T', ' ', '/']);
    assert(" "@ =~= seq![' ']);
}

/// Every request of a tunnel client is recognised: whatever the prefix, and whatever text follows it,
/// of any length.
pub proof fn law_tunnel_request_is_recognised(prefix: Seq<char>, rest: Seq<u8>)
    requires
        vstd::utf8::valid_utf8(rest),
    ensures
        text_starts_with(vstd::utf8::encode_utf8(prefix) + rest, prefix),
{
    let head = vstd::utf8::encode_utf8(prefix);
    vstd::utf8::encode_utf8_valid_utf8(prefix);
    vstd::utf8::valid_utf8_concat(head, rest);
    assert(head =~= (head + rest).subrange(0, head.len() as int));
    lemma_prefix_of_text(prefix, head + rest);
}

/// Nothing else is recognised: the bytes are the prefix and text after it.
pub proof fn law_recognised_request_has_the_prefix(bytes: Seq<u8>, prefix: Seq<char>)
    requires
        text_starts_with(bytes, prefix),
    ensures
        ({
            let head = vstd::utf8::encode_utf8(prefix);
            &&& head.len() <= bytes.len()
            &&& bytes == head + bytes.skip(head.len() as int)
            &&& vstd::utf8::valid_utf8(bytes.skip(head.len() as int))
        }),
{
    let head = vstd::utf8::encode_utf8(prefix);
    lemma_prefix_of_text(prefix, bytes);
    assert(head =~= bytes.subrange(0, head.len() as int));
    assert(bytes =~= head + bytes.skip(head.len() as int));
    lemma_decode_after_prefix(prefix, bytes.skip(head.len() as int));
}

/// A tunnel client that knows the token is told from a visitor: its whole request, a GET of the token
/// and any text after it, is recognised by the prefix of that token.
pub proof fn law_client_with_the_token_is_let_in(secret_token: Seq<char>, rest: Seq<char>)
    ensures
        text_starts_with(
            vstd::utf8::encode_utf8(
                seq!['G', 'E', 'T', ' ', '/'] + secret_token + seq![' '] + rest,
            ),
            prefix_text(secret_token),
        ),
{
    law_prefix_is_a_get_of_the_token(secret_token);
    lemma_encode_concat(prefix_text(secret_token), rest);
    vstd::utf8::encode_utf8_valid_utf8(rest);
    law_tunnel_request_is_recognised(prefix_text(secret_token), vstd::utf8::encode_utf8(rest));
}

/// A request that starts right for one token starts right for no other: tokens are compared whole.
/// Tokens hold no space, as no path of a request does.
pub proof fn law_one_token_per_request(bytes: Seq<u8>, t: Seq<char>, u: Seq<char>)
    requires
        !t.contains(' '),
        !u.contains(' '),
        text_starts_with(bytes, prefix_text(t)),
        text_starts_with(bytes, prefix_text(u)),
    ensures
        t == u,
{
    reveal_strlit("GET /");
    reveal_strlit(" ");
    let text = vstd::utf8::decode_utf8(bytes);
    let (m, n) = (t.len() as int, u.len() as int);
    let (a, b) = (prefix_text(t), prefix_text(u));
    assert(a =~= text.subrange(0, a.len() as int));
    assert(b =~= text.subrange(0, b.len() as int));
    assert(forall|i: int| 0 <= i < t.len() ==> t[i] == #[trigger] a[i + 5]);
    assert(forall|i: int| 0 <= i < u.len() ==> u[i] == #[trigger] b[i + 5]);
    assert(a[m + 5] == ' ' && b[n + 5] == ' ');
    assert(forall|i: int| 0 <= i < a.len() ==> a[i] == text[i]);
    assert(forall|i: int| 0 <= i < b.len() ==> b[i] == text[i]);
    if t.len() < u.len() {
        assert(u[m] == b[m + 5] == text[m + 5] == ' ');
        assert(u.contains(' '));
    } else if u.len() < t.len() {
        assert(t[n] == a[n + 5] == text[n + 5] == ' ');
        assert(t.contains(' '));
    } else {
        assert forall|i: int| 0 <= i < t.len() implies t[i] == u[i] by {
            assert(a[i + 5] == text[i + 5] == b[i + 5]);
        }
        assert(t =~= u);
    }
}

} // verus!
