//! Percent-encoding of query values and `application/x-www-form-urlencoded`
//! bodies, together with the three corrective substitutions that turn the
//! form encoding into the RFC 3986 variant the signing scheme expects
//! (`+` becomes `%20`, `*` becomes `%2A`, `%7E` becomes `~`).

use vstd::prelude::*;
use vstd::string::StrSliceExecFns;
use vstd::string::StringExecFns;

verus! {

broadcast use vstd::seq_lib::group_seq_lib_default;


// ASCII codes used throughout the encoders.
pub const B_SPACE: u8 = 32;
pub const B_PERCENT: u8 = 37;
pub const B_STAR: u8 = 42;
pub const B_PLUS: u8 = 43;
pub const B_DASH: u8 = 45;
pub const B_DOT: u8 = 46;
pub const B_UNDERSCORE: u8 = 95;
pub const B_TILDE: u8 = 126;
pub const B_AMP: u8 = 38;
pub const B_EQ: u8 = 61;
pub const B_ZERO: u8 = 48;
pub const B_NINE: u8 = 57;
pub const B_UPPER_A: u8 = 65;
pub const B_UPPER_Z: u8 = 90;
pub const B_LOWER_A: u8 = 97;
pub const B_LOWER_Z: u8 = 122;
pub const B_SEVEN: u8 = 55;
pub const B_TWO: u8 = 50;
pub const B_UPPER_E: u8 = 69;

// ---------------------------------------------------------------------------
// The form-urlencoded byte serialization.
// ---------------------------------------------------------------------------

/// Bytes that the form serializer leaves unchanged: `[A-Za-z0-9*\-._]`.
pub open spec fn is_form_unchanged(b: u8) -> bool {
    b == B_STAR || b == B_DASH || b == B_DOT || b == B_UNDERSCORE
        || (B_ZERO <= b && b <= B_NINE)
        || (B_UPPER_A <= b && b <= B_UPPER_Z)
        || (B_LOWER_A <= b && b <= B_LOWER_Z)
}

/// The upper-case hexadecimal digit for a nibble.
pub open spec fn hex_digit(n: u8) -> u8 {
    if n < 10 {
        (n + B_ZERO) as u8
    } else {
        (n - 10 + B_UPPER_A) as u8
    }
}

/// How the form serializer renders one byte.
pub open spec fn form_byte(b: u8) -> Seq<u8> {
    if is_form_unchanged(b) {
        seq![b]
    } else if b == B_SPACE {
        seq![B_PLUS]
    } else {
        seq![B_PERCENT, hex_digit(b / 16), hex_digit(b % 16)]
    }
}

/// The form serialization of a byte string.
pub open spec fn form_encoded(s: Seq<u8>) -> Seq<u8>
    decreases s.len(),
{
    if s.len() == 0 {
        seq![]
    } else {
        form_byte(s[0]) + form_encoded(s.drop_first())
    }
}

/// The form serialization of a list of (name, value) byte-string pairs:
/// pairs joined by `&`, name and value joined by `=`, both encoded.
pub open spec fn form_pairs(ps: Seq<(Seq<u8>, Seq<u8>)>) -> Seq<u8>
    decreases ps.len(),
{
    if ps.len() == 0 {
        seq![]
    } else if ps.len() == 1 {
        form_encoded(ps[0].0) + seq![B_EQ] + form_encoded(ps[0].1)
    } else {
        form_pairs(ps.drop_last()) + seq![B_AMP] + form_encoded(ps.last().0) + seq![B_EQ]
            + form_encoded(ps.last().1)
    }
}

// ---------------------------------------------------------------------------
// The three corrective substitutions.
// ---------------------------------------------------------------------------

/// Replace every `+` with `%20`.
pub open spec fn subst_plus(s: Seq<u8>) -> Seq<u8>
    decreases s.len(),
{
    if s.len() == 0 {
        seq![]
    } else if s[0] == B_PLUS {
        seq![B_PERCENT, B_TWO, B_ZERO] + subst_plus(s.drop_first())
    } else {
        seq![s[0]] + subst_plus(s.drop_first())
    }
}

/// Replace every `*` with `%2A`.
pub open spec fn subst_star(s: Seq<u8>) -> Seq<u8>
    decreases s.len(),
{
    if s.len() == 0 {
        seq![]
    } else if s[0] == B_STAR {
        seq![B_PERCENT, B_TWO, B_UPPER_A] + subst_star(s.drop_first())
    } else {
        seq![s[0]] + subst_star(s.drop_first())
    }
}

/// True when `%7E` stands at the front of `s`.
pub open spec fn tilde_escape_at_front(s: Seq<u8>) -> bool {
    s.len() >= 3 && s[0] == B_PERCENT && s[1] == B_SEVEN && s[2] == B_UPPER_E
}

/// Replace every `%7E` (scanning left to right) with `~`.
pub open spec fn subst_tilde(s: Seq<u8>) -> Seq<u8>
    decreases s.len(),
{
    if s.len() == 0 {
        seq![]
    } else if tilde_escape_at_front(s) {
        seq![B_TILDE] + subst_tilde(s.skip(3))
    } else {
        seq![s[0]] + subst_tilde(s.drop_first())
    }
}

/// The whole corrective pipeline, in the order the body encoder applies it.
pub open spec fn substituted(s: Seq<u8>) -> Seq<u8> {
    subst_tilde(subst_star(subst_plus(s)))
}

// ---------------------------------------------------------------------------
// The net effect of form encoding followed by the substitutions: RFC 3986
// percent-encoding that keeps the unreserved bytes and nothing else.
// ---------------------------------------------------------------------------

/// The RFC 3986 unreserved bytes: `[A-Za-z0-9\-._~]`.
pub open spec fn is_unreserved(b: u8) -> bool {
    b == B_DASH || b == B_DOT || b == B_UNDERSCORE || b == B_TILDE
        || (B_ZERO <= b && b <= B_NINE)
        || (B_UPPER_A <= b && b <= B_UPPER_Z)
        || (B_LOWER_A <= b && b <= B_LOWER_Z)
}

/// How one byte is rendered after the whole pipeline.
pub open spec fn pct_byte(b: u8) -> Seq<u8> {
    if is_unreserved(b) {
        seq![b]
    } else {
        seq![B_PERCENT, hex_digit(b / 16), hex_digit(b % 16)]
    }
}

/// Percent-encoding of a byte string per RFC 3986, space as `%20`, never `+`.
pub open spec fn pct_encoded(s: Seq<u8>) -> Seq<u8>
    decreases s.len(),
{
    if s.len() == 0 {
        seq![]
    } else {
        pct_byte(s[0]) + pct_encoded(s.drop_first())
    }
}

/// The characters of a byte string whose bytes are all ASCII.
pub open spec fn ascii_view(s: Seq<u8>) -> Seq<char> {
    s.map_values(|b: u8| b as char)
}

/// All bytes of `s` are ASCII.
pub open spec fn all_ascii(s: Seq<u8>) -> bool {
    forall|i: int| 0 <= i < s.len() ==> s[i] < 128
}

// ---------------------------------------------------------------------------
// Laws of the substitutions.
// ---------------------------------------------------------------------------

proof fn lemma_subst_plus_concat(a: Seq<u8>, b: Seq<u8>)
    ensures
        subst_plus(a + b) == subst_plus(a) + subst_plus(b),
    decreases a.len(),
{
    if a.len() == 0 {
        assert(a + b =~= b);
        assert(subst_plus(a) + subst_plus(b) =~= subst_plus(b));
    } else {
        assert((a + b).drop_first() =~= a.drop_first() + b);
        lemma_subst_plus_concat(a.drop_first(), b);
        assert(subst_plus(a + b) =~= subst_plus(a) + subst_plus(b));
    }
}

proof fn lemma_subst_star_concat(a: Seq<u8>, b: Seq<u8>)
    ensures
        subst_star(a + b) == subst_star(a) + subst_star(b),
    decreases a.len(),
{
    if a.len() == 0 {
        assert(a + b =~= b);
        assert(subst_star(a) + subst_star(b) =~= subst_star(b));
    } else {
        assert((a + b).drop_first() =~= a.drop_first() + b);
        lemma_subst_star_concat(a.drop_first(), b);
        assert(subst_star(a + b) =~= subst_star(a) + subst_star(b));
    }
}

proof fn lemma_subst_plus_id(s: Seq<u8>)
    requires
        forall|i: int| 0 <= i < s.len() ==> s[i] != B_PLUS,
    ensures
        subst_plus(s) == s,
    decreases s.len(),
{
    if s.len() == 0 {
        assert(subst_plus(s) =~= s);
    } else {
        lemma_subst_plus_id(s.drop_first());
        assert(subst_plus(s) =~= s);
    }
}

proof fn lemma_subst_star_id(s: Seq<u8>)
    requires
        forall|i: int| 0 <= i < s.len() ==> s[i] != B_STAR,
    ensures
        subst_star(s) == s,
    decreases s.len(),
{
    if s.len() == 0 {
        assert(subst_star(s) =~= s);
    } else {
        lemma_subst_star_id(s.drop_first());
        assert(subst_star(s) =~= s);
    }
}

/// A single byte other than `%` passes `subst_tilde` unchanged, whatever follows.
proof fn lemma_subst_tilde_single(x: u8, b: Seq<u8>)
    requires
        x != B_PERCENT,
    ensures
        subst_tilde(seq![x] + b) == seq![x] + subst_tilde(b),
{
    let s = seq![x] + b;
    assert(!tilde_escape_at_front(s));
    assert(s.drop_first() =~= b);
    assert(subst_tilde(s) =~= seq![x] + subst_tilde(b));
}

/// A complete escape other than `%7E` passes `subst_tilde` unchanged.
proof fn lemma_subst_tilde_escape(h1: u8, h2: u8, b: Seq<u8>)
    requires
        h1 != B_PERCENT,
        h2 != B_PERCENT,
        !(h1 == B_SEVEN && h2 == B_UPPER_E),
    ensures
        subst_tilde(seq![B_PERCENT, h1, h2] + b) == seq![B_PERCENT, h1, h2] + subst_tilde(b),
{
    let s = seq![B_PERCENT, h1, h2] + b;
    assert(!tilde_escape_at_front(s));
    assert(s.drop_first() =~= seq![h1] + (seq![h2] + b));
    lemma_subst_tilde_single(h1, seq![h2] + b);
    lemma_subst_tilde_single(h2, b);
    assert(subst_tilde(s) =~= seq![B_PERCENT, h1, h2] + subst_tilde(b));
}

/// The escape `%7E` itself becomes `~`, whatever follows.
proof fn lemma_subst_tilde_matched(b: Seq<u8>)
    ensures
        subst_tilde(seq![B_PERCENT, B_SEVEN, B_UPPER_E] + b) == seq![B_TILDE] + subst_tilde(b),
{
    let s = seq![B_PERCENT, B_SEVEN, B_UPPER_E] + b;
    assert(tilde_escape_at_front(s));
    assert(s.skip(3) =~= b);
    assert(subst_tilde(s) =~= seq![B_TILDE] + subst_tilde(b));
}

/// Hexadecimal digits lie in `[0-9A-F]`, so none of them is `%`, `+` or `*`.
proof fn lemma_hex_digit_range(n: u8)
    requires
        n < 16,
    ensures
        B_ZERO <= hex_digit(n) && hex_digit(n) <= B_ZERO + 9 || B_UPPER_A <= hex_digit(n)
            && hex_digit(n) <= B_UPPER_A + 5,
        hex_digit(n) != B_PERCENT,
        hex_digit(n) != B_PLUS,
        hex_digit(n) != B_STAR,
{
}

/// The three corrective substitutions, applied in order to a form-encoded
/// string followed by anything, rewrite exactly the escapes they are aimed at
/// and re-match nothing an earlier substitution produced: on the encoded part
/// their net effect is plain RFC 3986 percent-encoding, byte for byte, and
/// the rest is substituted on its own.
proof fn lemma_pipeline_prefix(s: Seq<u8>, tail: Seq<u8>)
    ensures
        substituted(form_encoded(s) + tail) == pct_encoded(s) + substituted(tail),
    decreases s.len(),
{
    if s.len() == 0 {
        assert(form_encoded(s) + tail =~= tail);
        assert(substituted(form_encoded(s) + tail) =~= pct_encoded(s) + substituted(tail));
    } else {
        let b = s[0];
        let fb = form_byte(b);
        let rest = form_encoded(s.drop_first()) + tail;
        assert(form_encoded(s) + tail =~= fb + rest);
        lemma_subst_plus_concat(fb, rest);
        lemma_subst_star_concat(subst_plus(fb), subst_plus(rest));
        let g = subst_star(subst_plus(rest));
        lemma_pipeline_prefix(s.drop_first(), tail);
        if is_form_unchanged(b) && b != B_STAR {
            assert(fb =~= seq![b]);
            lemma_subst_plus_id(fb);
            lemma_subst_star_id(fb);
            lemma_subst_tilde_single(b, g);
            assert(fb + g =~= seq![b] + g);
            assert(pct_byte(b) =~= seq![b]);
            assert(substituted(form_encoded(s) + tail) =~= pct_encoded(s) + substituted(tail));
        } else if b == B_STAR {
            lemma_subst_plus_id(fb);
            assert(subst_star(fb) =~= seq![B_PERCENT, B_TWO, B_UPPER_A] + subst_star(
                fb.drop_first(),
            ));
            assert(fb.drop_first() =~= Seq::<u8>::empty());
            assert(subst_star(fb) =~= seq![B_PERCENT, B_TWO, B_UPPER_A]);
            lemma_subst_tilde_escape(B_TWO, B_UPPER_A, g);
            assert(pct_byte(b) =~= seq![B_PERCENT, B_TWO, B_UPPER_A]);
            assert(substituted(form_encoded(s) + tail) =~= pct_encoded(s) + substituted(tail));
        } else if b == B_SPACE {
            assert(fb =~= seq![B_PLUS]);
            assert(subst_plus(fb) =~= seq![B_PERCENT, B_TWO, B_ZERO] + subst_plus(
                fb.drop_first(),
            ));
            assert(fb.drop_first() =~= Seq::<u8>::empty());
            assert(subst_plus(fb) =~= seq![B_PERCENT, B_TWO, B_ZERO]);
            lemma_subst_star_id(subst_plus(fb));
            lemma_subst_tilde_escape(B_TWO, B_ZERO, g);
            assert(pct_byte(b) =~= seq![B_PERCENT, B_TWO, B_ZERO]);
            assert(substituted(form_encoded(s) + tail) =~= pct_encoded(s) + substituted(tail));
        } else {
            let h1 = hex_digit(b / 16);
            let h2 = hex_digit(b % 16);
            lemma_hex_digit_range(b / 16);
            lemma_hex_digit_range(b % 16);
            assert(fb =~= seq![B_PERCENT, h1, h2]);
            lemma_subst_plus_id(fb);
            lemma_subst_star_id(fb);
            if b == B_TILDE {
                assert(h1 == B_SEVEN && h2 == B_UPPER_E);
                lemma_subst_tilde_matched(g);
                assert(pct_byte(b) =~= seq![B_TILDE]);
                assert(substituted(form_encoded(s) + tail) =~= pct_encoded(s) + substituted(
                    tail,
                ));
            } else {
                assert(!(h1 == B_SEVEN && h2 == B_UPPER_E));
                lemma_subst_tilde_escape(h1, h2, g);
                assert(!is_unreserved(b));
                assert(pct_byte(b) =~= seq![B_PERCENT, h1, h2]);
                assert(substituted(form_encoded(s) + tail) =~= pct_encoded(s) + substituted(
                    tail,
                ));
            }
        }
    }
}

/// The three corrective substitutions, applied in order to one form-encoded
/// string, have as their net effect plain RFC 3986 percent-encoding: each
/// rewrites exactly the escapes it is aimed at and re-matches nothing an
/// earlier substitution produced.
pub proof fn lemma_pipeline_is_pct(s: Seq<u8>)
    ensures
        substituted(form_encoded(s)) == pct_encoded(s),
{
    lemma_pipeline_prefix(s, Seq::<u8>::empty());
    assert(form_encoded(s) + Seq::<u8>::empty() =~= form_encoded(s));
    assert(substituted(Seq::<u8>::empty()) =~= Seq::<u8>::empty());
    assert(pct_encoded(s) + Seq::<u8>::empty() =~= pct_encoded(s));
}

/// A single separator byte (neither `+`, `*` nor `%`) passes the whole
/// pipeline unchanged, whatever follows it.
proof fn lemma_pipeline_separator(c: u8, tail: Seq<u8>)
    requires
        c != B_PLUS,
        c != B_STAR,
        c != B_PERCENT,
    ensures
        substituted(seq![c] + tail) == seq![c] + substituted(tail),
{
    lemma_subst_plus_concat(seq![c], tail);
    lemma_subst_plus_id(seq![c]);
    lemma_subst_star_concat(seq![c], subst_plus(tail));
    lemma_subst_star_id(seq![c]);
    lemma_subst_tilde_single(c, subst_star(subst_plus(tail)));
    assert(substituted(seq![c] + tail) =~= seq![c] + substituted(tail));
}

/// A form body after the pipeline: pairs joined by `&`, name and value joined
/// by `=`, both percent-encoded per RFC 3986.
pub open spec fn pct_pairs(ps: Seq<(Seq<u8>, Seq<u8>)>) -> Seq<u8>
    decreases ps.len(),
{
    if ps.len() == 0 {
        seq![]
    } else if ps.len() == 1 {
        pct_encoded(ps[0].0) + seq![B_EQ] + pct_encoded(ps[0].1)
    } else {
        pct_pairs(ps.drop_last()) + seq![B_AMP] + pct_encoded(ps.last().0) + seq![B_EQ]
            + pct_encoded(ps.last().1)
    }
}

proof fn lemma_pairs_prefix(ps: Seq<(Seq<u8>, Seq<u8>)>, tail: Seq<u8>)
    ensures
        substituted(form_pairs(ps) + tail) == pct_pairs(ps) + substituted(tail),
    decreases ps.len(),
{
    if ps.len() == 0 {
        assert(form_pairs(ps) + tail =~= tail);
        assert(substituted(form_pairs(ps) + tail) =~= pct_pairs(ps) + substituted(tail));
    } else if ps.len() == 1 {
        let k = ps[0].0;
        let v = ps[0].1;
        assert(form_pairs(ps) + tail =~= form_encoded(k) + (seq![B_EQ] + (form_encoded(v)
            + tail)));
        lemma_pipeline_prefix(k, seq![B_EQ] + (form_encoded(v) + tail));
        lemma_pipeline_separator(B_EQ, form_encoded(v) + tail);
        lemma_pipeline_prefix(v, tail);
        assert(substituted(form_pairs(ps) + tail) =~= pct_pairs(ps) + substituted(tail));
    } else {
        let k = ps.last().0;
        let v = ps.last().1;
        let inner = seq![B_AMP] + (form_encoded(k) + (seq![B_EQ] + (form_encoded(v) + tail)));
        assert(form_pairs(ps) + tail =~= form_pairs(ps.drop_last()) + inner);
        lemma_pairs_prefix(ps.drop_last(), inner);
        lemma_pipeline_separator(B_AMP, form_encoded(k) + (seq![B_EQ] + (form_encoded(v)
            + tail)));
        lemma_pipeline_prefix(k, seq![B_EQ] + (form_encoded(v) + tail));
        lemma_pipeline_separator(B_EQ, form_encoded(v) + tail);
        lemma_pipeline_prefix(v, tail);
        assert(substituted(form_pairs(ps) + tail) =~= pct_pairs(ps) + substituted(tail));
    }
}

/// The whole encoded form body after the pipeline is the percent-encoded
/// form of its pairs: the substitutions rewrite every `+`, `*` and `%7E` the
/// form serializer emitted and touch nothing else.
pub proof fn lemma_body_is_pct(ps: Seq<(Seq<u8>, Seq<u8>)>)
    ensures
        substituted(form_pairs(ps)) == pct_pairs(ps),
{
    lemma_pairs_prefix(ps, Seq::<u8>::empty());
    assert(form_pairs(ps) + Seq::<u8>::empty() =~= form_pairs(ps));
    assert(substituted(Seq::<u8>::empty()) =~= Seq::<u8>::empty());
    assert(pct_pairs(ps) + Seq::<u8>::empty() =~= pct_pairs(ps));
}

// ---------------------------------------------------------------------------
// ASCII facts, and the bridge between byte strings and character strings.
// ---------------------------------------------------------------------------

proof fn lemma_form_byte_ascii(b: u8)
    ensures
        all_ascii(form_byte(b)),
{
    if !is_form_unchanged(b) && b != B_SPACE {
        lemma_hex_digit_range(b / 16);
        lemma_hex_digit_range(b % 16);
    }
}

pub proof fn lemma_form_encoded_ascii(s: Seq<u8>)
    ensures
        all_ascii(form_encoded(s)),
    decreases s.len(),
{
    if s.len() > 0 {
        lemma_form_byte_ascii(s[0]);
        lemma_form_encoded_ascii(s.drop_first());
    }
}

pub proof fn lemma_form_pairs_ascii(ps: Seq<(Seq<u8>, Seq<u8>)>)
    ensures
        all_ascii(form_pairs(ps)),
    decreases ps.len(),
{
    if ps.len() == 1 {
        lemma_form_encoded_ascii(ps[0].0);
        lemma_form_encoded_ascii(ps[0].1);
    } else if ps.len() > 1 {
        lemma_form_pairs_ascii(ps.drop_last());
        lemma_form_encoded_ascii(ps.last().0);
        lemma_form_encoded_ascii(ps.last().1);
    }
}

proof fn lemma_subst_plus_ascii(s: Seq<u8>)
    requires
        all_ascii(s),
    ensures
        all_ascii(subst_plus(s)),
    decreases s.len(),
{
    if s.len() > 0 {
        lemma_subst_plus_ascii(s.drop_first());
    }
}

proof fn lemma_subst_star_ascii(s: Seq<u8>)
    requires
        all_ascii(s),
    ensures
        all_ascii(subst_star(s)),
    decreases s.len(),
{
    if s.len() > 0 {
        lemma_subst_star_ascii(s.drop_first());
    }
}

proof fn lemma_subst_tilde_ascii(s: Seq<u8>)
    requires
        all_ascii(s),
    ensures
        all_ascii(subst_tilde(s)),
    decreases s.len(),
{
    if s.len() > 0 {
        if tilde_escape_at_front(s) {
            lemma_subst_tilde_ascii(s.skip(3));
        } else {
            lemma_subst_tilde_ascii(s.drop_first());
        }
    }
}

pub proof fn lemma_substituted_ascii(s: Seq<u8>)
    requires
        all_ascii(s),
    ensures
        all_ascii(substituted(s)),
{
    lemma_subst_plus_ascii(s);
    lemma_subst_star_ascii(subst_plus(s));
    lemma_subst_tilde_ascii(subst_star(subst_plus(s)));
}

/// An ASCII byte string and its character view encode each other exactly.
pub proof fn lemma_ascii_view_encode(s: Seq<u8>)
    requires
        all_ascii(s),
    ensures
        vstd::utf8::is_ascii_chars(ascii_view(s)),
        vstd::utf8::encode_utf8(ascii_view(s)) == s,
{
    let cs = ascii_view(s);
    assert forall|i: int| 0 <= i < cs.len() implies '\0' <= #[trigger] cs[i] <= '\u{7f}' by {
        assert(cs[i] == s[i] as char);
    }
    vstd::utf8::is_ascii_chars_encode_utf8(cs);
    assert forall|i: int| 0 <= i < cs.len() implies #[trigger] vstd::utf8::encode_utf8(cs)[i]
        == s[i] by {
        assert(cs[i] as u8 == vstd::utf8::encode_utf8(cs)[i]);
        assert((s[i] as char) as u8 == s[i]);
    }
    assert(vstd::utf8::encode_utf8(cs) =~= s);
}

// ---------------------------------------------------------------------------
// Laws of the percent-encoding used for query strings.
// ---------------------------------------------------------------------------

/// Percent-encoding leaves the unreserved bytes `[A-Za-z0-9._~-]` untouched:
/// a byte string made only of them encodes to itself.
pub proof fn lemma_pct_unreserved_id(s: Seq<u8>)
    requires
        forall|i: int| 0 <= i < s.len() ==> is_unreserved(#[trigger] s[i]),
    ensures
        pct_encoded(s) == s,
    decreases s.len(),
{
    if s.len() == 0 {
        assert(pct_encoded(s) =~= s);
    } else {
        lemma_pct_unreserved_id(s.drop_first());
        assert(pct_encoded(s) =~= s);
    }
}

/// A space is encoded as `%20`.
pub proof fn lemma_pct_space()
    ensures
        pct_byte(B_SPACE) == seq![B_PERCENT, B_TWO, B_ZERO],
{
    assert(pct_byte(B_SPACE) =~= seq![B_PERCENT, B_TWO, B_ZERO]);
}

/// Percent-encoding never emits a `+`: a space can only become `%20`.
pub proof fn lemma_pct_no_plus(s: Seq<u8>)
    ensures
        forall|i: int| 0 <= i < pct_encoded(s).len() ==> #[trigger] pct_encoded(s)[i] != B_PLUS,
    decreases s.len(),
{
    if s.len() > 0 {
        if !is_unreserved(s[0]) {
            lemma_hex_digit_range(s[0] / 16);
            lemma_hex_digit_range(s[0] % 16);
        }
        lemma_pct_no_plus(s.drop_first());
        let head = pct_byte(s[0]);
        let tail = pct_encoded(s.drop_first());
        assert forall|i: int| 0 <= i < pct_encoded(s).len() implies #[trigger] pct_encoded(s)[i]
            != B_PLUS by {
            if i < head.len() {
                assert(pct_encoded(s)[i] == head[i]);
            } else {
                assert(pct_encoded(s)[i] == tail[i - head.len()]);
            }
        }
    }
}

// ---------------------------------------------------------------------------
// Trusted boundary: the outside encoders this module calls.
// ---------------------------------------------------------------------------

#[verifier::external_type_specification]
#[verifier::external_body]
pub struct ExSerError(serde_urlencoded::ser::Error);

/// The UTF-8 bytes of each side of each pair.
pub open spec fn pair_bytes<'a>(ps: Seq<(&'a str, &'a str)>) -> Seq<(Seq<u8>, Seq<u8>)> {
    ps.map_values(
        |p: (&'a str, &'a str)| (vstd::utf8::encode_utf8(p.0@), vstd::utf8::encode_utf8(p.1@)),
    )
}

/// Relies on twapi_oauth::encode: it form-urlencodes the UTF-8 bytes of `s`
/// (through url::form_urlencoded::byte_serialize, which keeps `[A-Za-z0-9*\-._]`,
/// writes a space as `+` and every other byte as an upper-case `%XX` escape)
/// and then applies the three corrective substitutions in order.
#[verifier::external_body]
fn twapi_encode(s: &str) -> (r: String)
    ensures
        r@ == ascii_view(substituted(form_encoded(vstd::utf8::encode_utf8(s@)))),
{
    twapi_oauth::encode(s)
}

/// Relies on serde_urlencoded::to_string: a sequence of string pairs is
/// serialized as the pairs joined by `&`, each rendered `name=value` with both
/// sides form-urlencoded from their UTF-8 bytes (url::form_urlencoded), and
/// serializing a sequence of string pairs never fails.
#[verifier::external_body]
fn urlencode_pairs(pairs: &Vec<(&str, &str)>) -> (r: Result<
    String,
    serde_urlencoded::ser::Error,
>)
    ensures
        r is Ok,
        r matches Ok(s) ==> s@ == ascii_view(form_pairs(pair_bytes(pairs@))),
{
    serde_urlencoded::to_string(pairs)
}

/// Relies on String::from_utf8: ASCII bytes are valid UTF-8 and decode to the
/// same characters, byte for byte.
#[verifier::external_body]
pub(crate) fn ascii_to_string(v: Vec<u8>) -> (r: String)
    requires
        all_ascii(v@),
    ensures
        r@ == ascii_view(v@),
{
    String::from_utf8(v).unwrap()
}

// ---------------------------------------------------------------------------
// The verified substitution passes.
// ---------------------------------------------------------------------------

fn replace_plus(v: &Vec<u8>) -> (r: Vec<u8>)
    ensures
        r@ == subst_plus(v@),
{
    let mut r: Vec<u8> = Vec::new();
    let mut i: usize = 0;
    while i < v.len()
        invariant
            i <= v.len(),
            r@ == subst_plus(v@.take(i as int)),
        decreases v.len() - i,
    {
        proof {
            assert(v@.take(i as int + 1) =~= v@.take(i as int) + seq![v@[i as int]]);
            lemma_subst_plus_concat(v@.take(i as int), seq![v@[i as int]]);
            assert(seq![v@[i as int]].drop_first() =~= Seq::<u8>::empty());
            assert(subst_plus(Seq::<u8>::empty()) =~= Seq::<u8>::empty());
        }
        if v[i] == B_PLUS {
            r.push(B_PERCENT);
            r.push(B_TWO);
            r.push(B_ZERO);
            proof {
                assert(r@ =~= subst_plus(v@.take(i as int)) + seq![B_PERCENT, B_TWO, B_ZERO]);
                assert(subst_plus(seq![v@[i as int]]) =~= seq![B_PERCENT, B_TWO, B_ZERO]);
            }
        } else {
            r.push(v[i]);
            proof {
                assert(r@ =~= subst_plus(v@.take(i as int)) + seq![v@[i as int]]);
                assert(subst_plus(seq![v@[i as int]]) =~= seq![v@[i as int]]);
            }
        }
        i += 1;
    }
    proof {
        assert(v@.take(v@.len() as int) =~= v@);
    }
    r
}

fn replace_star(v: &Vec<u8>) -> (r: Vec<u8>)
    ensures
        r@ == subst_star(v@),
{
    let mut r: Vec<u8> = Vec::new();
    let mut i: usize = 0;
    while i < v.len()
        invariant
            i <= v.len(),
            r@ == subst_star(v@.take(i as int)),
        decreases v.len() - i,
    {
        proof {
            assert(v@.take(i as int + 1) =~= v@.take(i as int) + seq![v@[i as int]]);
            lemma_subst_star_concat(v@.take(i as int), seq![v@[i as int]]);
            assert(seq![v@[i as int]].drop_first() =~= Seq::<u8>::empty());
            assert(subst_star(Seq::<u8>::empty()) =~= Seq::<u8>::empty());
        }
        if v[i] == B_STAR {
            r.push(B_PERCENT);
            r.push(B_TWO);
            r.push(B_UPPER_A);
            proof {
                assert(r@ =~= subst_star(v@.take(i as int)) + seq![B_PERCENT, B_TWO, B_UPPER_A]);
                assert(subst_star(seq![v@[i as int]]) =~= seq![B_PERCENT, B_TWO, B_UPPER_A]);
            }
        } else {
            r.push(v[i]);
            proof {
                assert(r@ =~= subst_star(v@.take(i as int)) + seq![v@[i as int]]);
                assert(subst_star(seq![v@[i as int]]) =~= seq![v@[i as int]]);
            }
        }
        i += 1;
    }
    proof {
        assert(v@.take(v@.len() as int) =~= v@);
    }
    r
}

fn replace_tilde(v: &Vec<u8>) -> (r: Vec<u8>)
    ensures
        r@ == subst_tilde(v@),
{
    let mut r: Vec<u8> = Vec::new();
    let mut i: usize = 0;
    proof {
        assert(v@.skip(0) =~= v@);
        assert(Seq::<u8>::empty() + subst_tilde(v@) =~= subst_tilde(v@));
    }
    while i < v.len()
        invariant
            i <= v.len(),
            subst_tilde(v@) == r@ + subst_tilde(v@.skip(i as int)),
        decreases v.len() - i,
    {
        let ghost rest = v@.skip(i as int);
        if v.len() - i >= 3 && v[i] == B_PERCENT && v[i + 1] == B_SEVEN && v[i + 2] == B_UPPER_E {
            r.push(B_TILDE);
            proof {
                assert(rest[0] == v@[i as int]);
                assert(rest[1] == v@[i as int + 1]);
                assert(rest[2] == v@[i as int + 2]);
                assert(tilde_escape_at_front(rest));
                assert(rest.skip(3) =~= v@.skip(i as int + 3));
                assert(subst_tilde(rest) =~= seq![B_TILDE] + subst_tilde(v@.skip(i as int + 3)));
                assert(r@ + subst_tilde(v@.skip(i as int + 3)) =~= subst_tilde(v@));
            }
            i += 3;
        } else {
            r.push(v[i]);
            proof {
                if rest.len() >= 3 {
                    assert(rest[0] == v@[i as int]);
                    assert(rest[1] == v@[i as int + 1]);
                    assert(rest[2] == v@[i as int + 2]);
                }
                assert(!tilde_escape_at_front(rest));
                assert(rest.drop_first() =~= v@.skip(i as int + 1));
                assert(rest[0] == v@[i as int]);
                assert(subst_tilde(rest) =~= seq![v@[i as int]] + subst_tilde(
                    v@.skip(i as int + 1),
                ));
                assert(r@ + subst_tilde(v@.skip(i as int + 1)) =~= subst_tilde(v@));
            }
            i += 1;
        }
    }
    proof {
        assert(v@.skip(v@.len() as int) =~= Seq::<u8>::empty());
        assert(r@ + subst_tilde(Seq::<u8>::empty()) =~= r@);
    }
    r
}

// ---------------------------------------------------------------------------
// The public encoders.
// ---------------------------------------------------------------------------

/// The characters a value contributes to a query string.
pub open spec fn encoded_value(s: Seq<char>) -> Seq<char> {
    ascii_view(pct_encoded(vstd::utf8::encode_utf8(s)))
}

/// Percent-encode one query value per RFC 3986: unreserved bytes kept,
/// a space written `%20` (never `+`), everything else an upper-case escape.
pub fn encode(s: &str) -> (r: String)
    ensures
        r@ == encoded_value(s@),
{
    let r = twapi_encode(s);
    proof {
        lemma_pipeline_is_pct(vstd::utf8::encode_utf8(s@));
    }
    r
}

/// The characters of the encoded form body for the given pairs.
pub open spec fn body_chars(ps: Seq<(Seq<u8>, Seq<u8>)>) -> Seq<char> {
    ascii_view(substituted(form_pairs(ps)))
}

/// Serialize a form-parameter list as an `application/x-www-form-urlencoded`
/// body and apply the corrective substitutions, in order: `+` to `%20`, `*`
/// to `%2A`, `%7E` to `~`.
pub fn make_body(form_options: &Vec<(&str, &str)>) -> (r: String)
    ensures
        r@ == body_chars(pair_bytes(form_options@)),
        r@ == ascii_view(pct_pairs(pair_bytes(form_options@))),
{
    match urlencode_pairs(form_options) {
        Ok(body) => {
            let ghost fp = form_pairs(pair_bytes(form_options@));
            proof {
                lemma_form_pairs_ascii(pair_bytes(form_options@));
                lemma_ascii_view_encode(fp);
            }
            let bytes = body.as_str().as_bytes_vec();
            let b1 = replace_plus(&bytes);
            let b2 = replace_star(&b1);
            let b3 = replace_tilde(&b2);
            proof {
                lemma_substituted_ascii(fp);
                lemma_body_is_pct(pair_bytes(form_options@));
            }
            ascii_to_string(b3)
        },
        // The serializer cannot fail on string pairs; were it ever to, an
        // empty body is sent rather than the whole request failing.
        Err(_) => String::new(),
    }
}

/// One `name=value` item of a query string: the name as given, the value
/// percent-encoded.
pub open spec fn query_item<'a>(p: (&'a str, &'a str)) -> Seq<char> {
    p.0@ + seq!['='] + encoded_value(p.1@)
}

/// A whole query string: items joined by the separator.
pub open spec fn query_chars<'a>(items: Seq<(&'a str, &'a str)>, sep: Seq<char>) -> Seq<char>
    decreases items.len(),
{
    if items.len() == 0 {
        Seq::empty()
    } else if items.len() == 1 {
        query_item(items[0])
    } else {
        query_chars(items.drop_last(), sep) + sep + query_item(items.last())
    }
}

/// Join a parameter list into a query string, percent-encoding the values.
pub fn make_query(list: &Vec<(&str, &str)>, separator: &str) -> (r: String)
    ensures
        r@ == query_chars(list@, separator@),
{
    let mut result = String::new();
    let mut i: usize = 0;
    while i < list.len()
        invariant
            i <= list.len(),
            result@ == query_chars(list@.take(i as int), separator@),
        decreases list.len() - i,
    {
        if i > 0 {
            result.append(separator);
        }
        result.append(list[i].0);
        result.append("=");
        let enc = encode(list[i].1);
        result.append(enc.as_str());
        proof {
            reveal_strlit("=");
            assert("="@ =~= seq!['=']);
            assert(list@.take(i as int + 1).drop_last() =~= list@.take(i as int));
            assert(list@.take(i as int + 1).last() == list@[i as int]);
            assert(result@ =~= query_chars(list@.take(i as int + 1), separator@));
        }
        i += 1;
    }
    proof {
        assert(list@.take(list@.len() as int) =~= list@);
    }
    result
}

/// Append a query string to a URL: `url?k1=v1&k2=v2`, or the URL unchanged
/// when there are no parameters (no trailing `?`).
pub fn append_query(url: &str, query_options: &Vec<(&str, &str)>) -> (r: String)
    ensures
        query_options@.len() > 0 ==> r@ == url@ + seq!['?'] + query_chars(
            query_options@,
            seq!['&'],
        ),
        query_options@.len() == 0 ==> r@ == url@,
{
    if query_options.len() > 0 {
        let mut r = url.to_owned();
        r.append("?");
        let q = make_query(query_options, "&");
        r.append(q.as_str());
        proof {
            reveal_strlit("?");
            reveal_strlit("&");
            assert("?"@ =~= seq!['?']);
            assert("&"@ =~= seq!['&']);
        }
        r
    } else {
        url.to_owned()
    }
}

} // verus!
