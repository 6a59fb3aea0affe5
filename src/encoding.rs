//! Base64url segments and the `.`-delimited tokens built from them.
use base64::Engine;
use vstd::prelude::*;

verus! {

/// The character that stands for a six-bit value in the URL-safe base64 alphabet.
pub open spec fn b64_symbol(v: u8) -> char {
    if v < 26 {
        (v + 65) as char
    } else if v < 52 {
        (v + 71) as char
    } else if v < 62 {
        (v - 4) as char
    } else if v == 62 {
        '-'
    } else {
        '_'
    }
}

/// The four characters that encode up to three bytes; a group of one or two
/// bytes is padded with `=`.
pub open spec fn b64_group(b: Seq<u8>) -> Seq<char>
    recommends
        1 <= b.len() <= 3,
{
    if b.len() == 1 {
        seq![b64_symbol(b[0] >> 2u8), b64_symbol((b[0] & 3u8) << 4u8), '=', '=']
    } else if b.len() == 2 {
        seq![
            b64_symbol(b[0] >> 2u8),
            b64_symbol(((b[0] & 3u8) << 4u8) | (b[1] >> 4u8)),
            b64_symbol((b[1] & 15u8) << 2u8),
            '=',
        ]
    } else {
        seq![
            b64_symbol(b[0] >> 2u8),
            b64_symbol(((b[0] & 3u8) << 4u8) | (b[1] >> 4u8)),
            b64_symbol(((b[1] & 15u8) << 2u8) | (b[2] >> 6u8)),
            b64_symbol(b[2] & 63u8),
        ]
    }
}

/// Padded URL-safe base64 (RFC 4648, section 5) of a byte sequence.
pub open spec fn b64_url(b: Seq<u8>) -> Seq<char>
    decreases b.len(),
{
    if b.len() == 0 {
        seq![]
    } else if b.len() <= 3 {
        b64_group(b)
    } else {
        b64_group(b.take(3)) + b64_url(b.skip(3))
    }
}

/// The bytes whose padded URL-safe base64 is `s`, if there are any.
pub open spec fn b64_url_decode(s: Seq<char>) -> Option<Seq<u8>> {
    if exists|v: Seq<u8>| b64_url(v) == s {
        Some(choose|v: Seq<u8>| b64_url(v) == s)
    } else {
        None
    }
}

/// `s` with the `=` padding that makes its length a multiple of four, when
/// some padding can.
pub open spec fn with_padding(s: Seq<char>) -> Option<Seq<char>> {
    if s.len() % 4 == 0 {
        Some(s)
    } else if s.len() % 4 == 2 {
        Some(s + seq!['=', '='])
    } else if s.len() % 4 == 3 {
        Some(s + seq!['='])
    } else {
        None
    }
}

/// The bytes that `s` encodes, with its padding present or left out.
pub open spec fn b64_url_decode_lenient(s: Seq<char>) -> Option<Seq<u8>> {
    match with_padding(s) {
        Some(p) => b64_url_decode(p),
        None => None,
    }
}

/// The bytes that an optional vector carries.
pub open spec fn bytes_of(r: Option<Vec<u8>>) -> Option<Seq<u8>> {
    match r {
        Some(v) => Some(v@),
        None => None,
    }
}

/// `c` has Unicode's White_Space property.
pub open spec fn is_white_space(c: char) -> bool {
    let u = c as u32;
    (0x09 <= u <= 0x0d) || u == 0x20 || u == 0x85 || u == 0xa0 || u == 0x1680 || (0x2000 <= u
        <= 0x200a) || u == 0x2028 || u == 0x2029 || u == 0x202f || u == 0x205f || u == 0x3000
}

/// `s` without its leading white space.
pub open spec fn trim_start(s: Seq<char>) -> Seq<char>
    decreases s.len(),
{
    if s.len() > 0 && is_white_space(s[0]) {
        trim_start(s.drop_first())
    } else {
        s
    }
}

/// `s` without its trailing white space.
pub open spec fn trim_end(s: Seq<char>) -> Seq<char>
    decreases s.len(),
{
    if s.len() > 0 && is_white_space(s.last()) {
        trim_end(s.drop_last())
    } else {
        s
    }
}

/// `s` without leading and trailing white space.
pub open spec fn trimmed(s: Seq<char>) -> Seq<char> {
    trim_end(trim_start(s))
}

/// No character of `s` is white space.
pub open spec fn no_white_space(s: Seq<char>) -> bool {
    forall|i: int| 0 <= i < s.len() ==> !is_white_space(#[trigger] s[i])
}

/// Relies on `str::trim`: removes leading and trailing characters with the
/// White_Space property.
#[verifier::external_body]
pub(crate) fn trim_white_space(s: &str) -> (r: &str)
    ensures
        r@ == trimmed(s@),
{
    s.trim()
}

/// No character of `s` is the segment delimiter.
pub open spec fn dot_free(s: Seq<char>) -> bool {
    forall|i: int| 0 <= i < s.len() ==> s[i] != '.'
}

/// Two segments joined by the delimiter.
pub open spec fn join_spec(a: Seq<char>, b: Seq<char>) -> Seq<char> {
    a + seq!['.'] + b
}

/// `i` is the place of the only delimiter in `t`.
pub open spec fn is_sole_dot(t: Seq<char>, i: int) -> bool {
    0 <= i < t.len() && t[i] == '.' && dot_free(t.take(i)) && dot_free(t.skip(i + 1))
}

/// The two segments of `t` when it holds exactly one delimiter.
pub open spec fn split_spec(t: Seq<char>) -> Option<(Seq<char>, Seq<char>)> {
    if exists|i: int| is_sole_dot(t, i) {
        let i = choose|i: int| is_sole_dot(t, i);
        Some((t.take(i), t.skip(i + 1)))
    } else {
        None
    }
}

/// Relies on base64's `Engine::encode` with the `URL_SAFE` engine: padded
/// URL-safe base64 of the input.
#[verifier::external_body]
pub(crate) fn encode_b64(b: &[u8]) -> (r: String)
    ensures
        r@ == b64_url(b@),
{
    base64::engine::general_purpose::URL_SAFE.encode(b)
}

/// Relies on base64's `Engine::decode` with the `URL_SAFE` engine, which
/// accepts canonical padded input only: it succeeds exactly on the encodings
/// of byte sequences and returns the bytes encoded.
#[verifier::external_body]
pub(crate) fn decode_b64(s: &str) -> (r: Option<Vec<u8>>)
    ensures
        r matches Some(v) ==> b64_url(v@) == s@,
        (exists|v: Seq<u8>| b64_url(v) == s@) ==> r is Some,
{
    base64::engine::general_purpose::URL_SAFE.decode(s).ok()
}

/// Decodes one base64url segment.
pub fn decode_segment(s: &str) -> (r: Option<Vec<u8>>)
    ensures
        bytes_of(r) == b64_url_decode(s@),
{
    let r = decode_b64(s);
    proof {
        if exists|v: Seq<u8>| b64_url(v) == s@ {
            let v = choose|v: Seq<u8>| b64_url(v) == s@;
            lemma_b64_injective(v, r->Some_0@);
        }
    }
    r
}

/// Decodes base64url key material, with its padding present or left out.
pub fn decode_key_segment(s: &str) -> (r: Option<Vec<u8>>)
    ensures
        bytes_of(r) == b64_url_decode_lenient(s@),
{
    let n = s.unicode_len();
    proof {
        reveal_strlit("==");
        reveal_strlit("=");
        assert("=="@ =~= seq!['=', '=']);
        assert("="@ =~= seq!['=']);
    }
    if n % 4 == 0 {
        decode_segment(s)
    } else if n % 4 == 2 {
        let p = s.to_owned().concat("==");
        decode_segment(p.as_str())
    } else if n % 4 == 3 {
        let p = s.to_owned().concat("=");
        decode_segment(p.as_str())
    } else {
        None
    }
}

/// Encodes bytes as one base64url segment.
pub fn encode_segment(b: &[u8]) -> (r: String)
    ensures
        r@ == b64_url(b@),
        dot_free(r@),
        no_white_space(r@),
        b64_url_decode(r@) == Some(b@),
{
    let r = encode_b64(b);
    proof {
        lemma_b64_dot_free(b@);
        lemma_b64_decode_encode(b@);
    }
    r
}

/// Joins two segments with the delimiter.
pub fn join_segments(a: &str, b: &str) -> (r: String)
    ensures
        r@ == join_spec(a@, b@),
{
    let r = a.to_owned();
    let r = r.concat(".");
    let r = r.concat(b);
    proof {
        reveal_strlit(".");
    }
    r
}

/// Splits a token into its two segments; `None` unless it holds exactly one
/// delimiter.
pub fn split_segments(t: &str) -> (r: Option<(String, String)>)
    ensures
        match split_spec(t@) {
            Some((a, b)) => r matches Some((x, y)) && x@ == a && y@ == b,
            None => r is None,
        },
{
    let n = t.unicode_len();
    let mut i: usize = 0;
    while i < n && t.get_char(i) != '.'
        invariant
            n == t@.len(),
            i <= n,
            dot_free(t@.take(i as int)),
        decreases n - i,
    {
        assert(t@.take(i as int + 1) == t@.take(i as int).push(t@[i as int]));
        i = i + 1;
    }
    if i == n {
        proof {
            assert(t@.take(n as int) == t@);
            assert forall|k: int| !is_sole_dot(t@, k) by {
                if is_sole_dot(t@, k) {
                    assert(t@[k] == '.');
                }
            }
        }
        return None;
    }
    let mut j: usize = i + 1;
    while j < n && t.get_char(j) != '.'
        invariant
            n == t@.len(),
            i < j <= n,
            t@[i as int] == '.',
            dot_free(t@.subrange(i as int + 1, j as int)),
        decreases n - j,
    {
        assert(t@.subrange(i as int + 1, j as int + 1) == t@.subrange(i as int + 1, j as int).push(
            t@[j as int],
        ));
        j = j + 1;
    }
    if j < n {
        proof {
            assert forall|k: int| !is_sole_dot(t@, k) by {
                if is_sole_dot(t@, k) {
                    if k < i {
                        assert(t@.take(i as int)[k] == '.');
                    } else if k > i {
                        assert(t@.take(k)[i as int] == '.');
                    } else {
                        assert(t@.skip(k + 1)[j - k - 1] == '.');
                    }
                }
            }
        }
        return None;
    }
    proof {
        assert(t@.subrange(i as int + 1, n as int) == t@.skip(i as int + 1));
        assert(is_sole_dot(t@, i as int));
        let k = choose|k: int| is_sole_dot(t@, k);
        if k < i {
            assert(t@.take(i as int)[k] == '.');
        } else if k > i {
            assert(t@.take(k)[i as int] == '.');
        }
    }
    let a = t.substring_char(0, i).to_owned();
    let b = t.substring_char(i + 1, n).to_owned();
    Some((a, b))
}

/// Splitting two delimiter-free segments after joining them gives them back.
pub proof fn lemma_split_join(a: Seq<char>, b: Seq<char>)
    requires
        dot_free(a),
        dot_free(b),
    ensures
        split_spec(join_spec(a, b)) == Some((a, b)),
{
    let t = join_spec(a, b);
    let n = a.len() as int;
    assert(t.take(n) == a);
    assert(t.skip(n + 1) == b);
    assert(is_sole_dot(t, n));
    let k = choose|k: int| is_sole_dot(t, k);
    if k < n {
        assert(t[k] == a[k]);
    } else if k > n {
        assert(t.take(k)[n] == '.');
    }
}

proof fn lemma_symbol_not_dot(v: u8)
    ensures
        b64_symbol(v) != '.',
        b64_symbol(v) != '=',
        !is_white_space(b64_symbol(v)),
{
}

/// Base64url output never holds the delimiter or white space.
pub proof fn lemma_b64_dot_free(b: Seq<u8>)
    ensures
        dot_free(b64_url(b)),
        no_white_space(b64_url(b)),
    decreases b.len(),
{
    if b.len() == 0 {
    } else if b.len() <= 3 {
        lemma_group_dot_free(b);
    } else {
        lemma_group_dot_free(b.take(3));
        lemma_b64_dot_free(b.skip(3));
        let g = b64_group(b.take(3));
        let r = b64_url(b.skip(3));
        assert forall|i: int| 0 <= i < (g + r).len() implies (g + r)[i] != '.'
            && !is_white_space((g + r)[i]) by {
            if i < g.len() {
                assert((g + r)[i] == g[i]);
            } else {
                assert((g + r)[i] == r[i - g.len()]);
            }
        }
    }
}

proof fn lemma_group_dot_free(b: Seq<u8>)
    requires
        1 <= b.len() <= 3,
    ensures
        dot_free(b64_group(b)),
        no_white_space(b64_group(b)),
        b64_group(b).len() == 4,
{
    let g = b64_group(b);
    assert(!is_white_space('='));
    assert forall|i: int| 0 <= i < g.len() implies g[i] != '.' && !is_white_space(g[i]) by {
        if b.len() == 1 {
            lemma_symbol_not_dot(b[0] >> 2u8);
            lemma_symbol_not_dot((b[0] & 3u8) << 4u8);
        } else if b.len() == 2 {
            lemma_symbol_not_dot(b[0] >> 2u8);
            lemma_symbol_not_dot(((b[0] & 3u8) << 4u8) | (b[1] >> 4u8));
            lemma_symbol_not_dot((b[1] & 15u8) << 2u8);
        } else {
            lemma_symbol_not_dot(b[0] >> 2u8);
            lemma_symbol_not_dot(((b[0] & 3u8) << 4u8) | (b[1] >> 4u8));
            lemma_symbol_not_dot(((b[1] & 15u8) << 2u8) | (b[2] >> 6u8));
            lemma_symbol_not_dot(b[2] & 63u8);
        }
    }
}

/// Decoding the base64url of `b` gives `b` back.
pub proof fn lemma_b64_decode_encode(b: Seq<u8>)
    ensures
        b64_url_decode(b64_url(b)) == Some(b),
{
    let v = choose|v: Seq<u8>| b64_url(v) == b64_url(b);
    lemma_b64_injective(v, b);
}

proof fn lemma_symbol_injective(x: u8, y: u8)
    requires
        x < 64,
        y < 64,
        b64_symbol(x) == b64_symbol(y),
    ensures
        x == y,
{
}

proof fn lemma_group_bits(a: u8, b: u8, c: u8, x: u8, y: u8, z: u8)
    requires
        a >> 2u8 == x >> 2u8,
        ((a & 3u8) << 4u8) | (b >> 4u8) == ((x & 3u8) << 4u8) | (y >> 4u8),
        ((b & 15u8) << 2u8) | (c >> 6u8) == ((y & 15u8) << 2u8) | (z >> 6u8),
        c & 63u8 == z & 63u8,
    ensures
        a == x,
        b == y,
        c == z,
{
    assert(a == x && b == y && c == z) by (bit_vector)
        requires
            a >> 2u8 == x >> 2u8,
            ((a & 3u8) << 4u8) | (b >> 4u8) == ((x & 3u8) << 4u8) | (y >> 4u8),
            ((b & 15u8) << 2u8) | (c >> 6u8) == ((y & 15u8) << 2u8) | (z >> 6u8),
            c & 63u8 == z & 63u8,
    ;
}

proof fn lemma_group_injective(v: Seq<u8>, w: Seq<u8>)
    requires
        1 <= v.len() <= 3,
        1 <= w.len() <= 3,
        b64_group(v) == b64_group(w),
    ensures
        v == w,
{
    let g = b64_group(v);
    let h = b64_group(w);
    assert(g[2] == h[2] && g[3] == h[3]);
    let (a0, a1, a2) = (v[0], if v.len() > 1 { v[1] } else { 0u8 }, if v.len() > 2 { v[2] } else { 0u8 });
    let (b0, b1, b2) = (w[0], if w.len() > 1 { w[1] } else { 0u8 }, if w.len() > 2 { w[2] } else { 0u8 });
    assert(a0 >> 2u8 < 64 && ((a0 & 3u8) << 4u8) | (a1 >> 4u8) < 64 && ((a1 & 15u8) << 2u8) | (a2 >> 6u8) < 64 && a2 & 63u8 < 64 && (a0 & 3u8) << 4u8 < 64 && (a1 & 15u8) << 2u8 < 64) by (bit_vector);
    assert(b0 >> 2u8 < 64 && ((b0 & 3u8) << 4u8) | (b1 >> 4u8) < 64 && ((b1 & 15u8) << 2u8) | (b2 >> 6u8) < 64 && b2 & 63u8 < 64 && (b0 & 3u8) << 4u8 < 64 && (b1 & 15u8) << 2u8 < 64) by (bit_vector);
    assert((a0 & 3u8) << 4u8 == ((a0 & 3u8) << 4u8) | (0u8 >> 4u8)) by (bit_vector);
    assert((b0 & 3u8) << 4u8 == ((b0 & 3u8) << 4u8) | (0u8 >> 4u8)) by (bit_vector);
    assert((a1 & 15u8) << 2u8 == ((a1 & 15u8) << 2u8) | (0u8 >> 6u8)) by (bit_vector);
    assert((b1 & 15u8) << 2u8 == ((b1 & 15u8) << 2u8) | (0u8 >> 6u8)) by (bit_vector);
    lemma_symbol_not_dot(0);
    if v.len() == 1 {
        assert(w.len() == 1);
    } else if v.len() == 2 {
        assert(w.len() == 2);
    } else {
        assert(w.len() == 3);
    }
    lemma_symbol_injective(a0 >> 2u8, b0 >> 2u8);
    if v.len() == 1 {
        lemma_symbol_injective((a0 & 3u8) << 4u8, (b0 & 3u8) << 4u8);
        assert(((0u8 & 15u8) << 2u8) | (0u8 >> 6u8) == 0u8 && 0u8 & 63u8 == 0u8) by (bit_vector);
        lemma_group_bits(a0, 0, 0, b0, 0, 0);
        assert(v =~= w);
    } else if v.len() == 2 {
        lemma_symbol_injective(((a0 & 3u8) << 4u8) | (a1 >> 4u8), ((b0 & 3u8) << 4u8) | (b1 >> 4u8));
        lemma_symbol_injective((a1 & 15u8) << 2u8, (b1 & 15u8) << 2u8);
        assert(0u8 & 63u8 == 0u8) by (bit_vector);
        lemma_group_bits(a0, a1, 0, b0, b1, 0);
        assert(v =~= w);
    } else {
        lemma_symbol_injective(((a0 & 3u8) << 4u8) | (a1 >> 4u8), ((b0 & 3u8) << 4u8) | (b1 >> 4u8));
        lemma_symbol_injective(((a1 & 15u8) << 2u8) | (a2 >> 6u8), ((b1 & 15u8) << 2u8) | (b2 >> 6u8));
        lemma_symbol_injective(a2 & 63u8, b2 & 63u8);
        lemma_group_bits(a0, a1, a2, b0, b1, b2);
        assert(v =~= w);
    }
}

/// The length of base64url output.
pub proof fn lemma_b64_len(b: Seq<u8>)
    ensures
        b.len() == 0 ==> b64_url(b).len() == 0,
        1 <= b.len() <= 3 ==> b64_url(b).len() == 4,
        b.len() > 3 ==> b64_url(b).len() >= 8,
    decreases b.len(),
{
    if b.len() > 3 {
        lemma_b64_len(b.skip(3));
    }
}

/// Distinct byte sequences have distinct base64url.
pub proof fn lemma_b64_injective(v: Seq<u8>, w: Seq<u8>)
    requires
        b64_url(v) == b64_url(w),
    ensures
        v == w,
    decreases v.len(),
{
    lemma_b64_len(v);
    lemma_b64_len(w);
    if v.len() == 0 {
        assert(w.len() == 0);
        assert(v =~= w);
    } else if v.len() <= 3 {
        assert(1 <= w.len() <= 3);
        lemma_group_injective(v, w);
    } else {
        assert(w.len() > 3);
        let s = b64_url(v);
        let g = b64_group(v.take(3));
        let h = b64_group(w.take(3));
        assert(g == s.take(4));
        assert(h == s.take(4));
        lemma_group_injective(v.take(3), w.take(3));
        assert(b64_url(v.skip(3)) == s.skip(4));
        assert(b64_url(w.skip(3)) == s.skip(4));
        lemma_b64_injective(v.skip(3), w.skip(3));
        assert(v =~= v.take(3) + v.skip(3));
        assert(w =~= w.take(3) + w.skip(3));
    }
}

/// How many `=` end the base64url of `n` bytes.
pub open spec fn pad_len(n: nat) -> nat {
    if n % 3 == 1 {
        2
    } else if n % 3 == 2 {
        1
    } else {
        0
    }
}

/// Base64url of `b` with its `=` padding left out.
pub open spec fn b64_url_unpadded(b: Seq<u8>) -> Seq<char> {
    b64_url(b).take(b64_url(b).len() - pad_len(b.len()))
}

proof fn lemma_b64_shape(b: Seq<u8>)
    ensures
        b64_url(b).len() == 4 * ((b.len() + 2) / 3),
        forall|i: int|
            b64_url(b).len() - pad_len(b.len()) <= i < b64_url(b).len() ==> #[trigger] b64_url(
                b,
            )[i] == '=',
    decreases b.len(),
{
    if b.len() > 3 {
        lemma_b64_shape(b.skip(3));
        lemma_group_dot_free(b.take(3));
        let g = b64_group(b.take(3));
        let r = b64_url(b.skip(3));
        assert(pad_len(b.skip(3).len()) == pad_len(b.len()));
        assert forall|i: int|
            b64_url(b).len() - pad_len(b.len()) <= i < b64_url(b).len() implies #[trigger] b64_url(
            b,
        )[i] == '=' by {
            assert((g + r)[i] == r[i - 4]);
        }
    }
}

/// Lenient decoding takes base64url with its padding and without it.
pub proof fn lemma_lenient_decode_accepts_both(b: Seq<u8>)
    ensures
        b64_url_decode_lenient(b64_url(b)) == Some(b),
        b64_url_decode_lenient(b64_url_unpadded(b)) == Some(b),
{
    lemma_b64_shape(b);
    lemma_b64_decode_encode(b);
    let e = b64_url(b);
    let u = b64_url_unpadded(b);
    let p = pad_len(b.len());
    if p == 2 {
        assert(u + seq!['=', '='] =~= e);
    } else if p == 1 {
        assert(u + seq!['='] =~= e);
    } else {
        assert(u =~= e);
    }
}

/// Text without white space is its own trimmed form.
pub proof fn lemma_trimmed_clean(s: Seq<char>)
    requires
        no_white_space(s),
    ensures
        trimmed(s) == s,
{
    if s.len() > 0 {
        assert(!is_white_space(s[0]));
        assert(!is_white_space(s[s.len() - 1]));
    }
}

/// Joining segments without white space gives a token without white space.
pub proof fn lemma_join_clean(a: Seq<char>, b: Seq<char>)
    requires
        no_white_space(a),
        no_white_space(b),
    ensures
        no_white_space(join_spec(a, b)),
        trimmed(join_spec(a, b)) == join_spec(a, b),
{
    let t = join_spec(a, b);
    assert(!is_white_space('.'));
    assert forall|i: int| 0 <= i < t.len() implies !is_white_space(#[trigger] t[i]) by {
        if i < a.len() {
            assert(t[i] == a[i]);
        } else if i > a.len() {
            assert(t[i] == b[i - a.len() - 1]);
        }
    }
    lemma_trimmed_clean(t);
}

/// Key text that an endpoint hands out reads back as the same key: trimming
/// leaves it alone and lenient decoding gives the bytes back.
pub proof fn lemma_key_text_round_trip(b: Seq<u8>)
    ensures
        trimmed(b64_url(b)) == b64_url(b),
        b64_url_decode_lenient(trimmed(b64_url(b))) == Some(b),
{
    lemma_b64_dot_free(b);
    lemma_trimmed_clean(b64_url(b));
    lemma_lenient_decode_accepts_both(b);
}

} // verus!
