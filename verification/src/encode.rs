//! The literal encoder: turns arbitrary text into a double-quoted, escaped
//! literal, such that the target configuration format's string-literal
//! grammar recovers the original text exactly.

use vstd::prelude::*;

verus! {

// ---------------------------------------------------------------------------
// Character classes
// ---------------------------------------------------------------------------

/// Code points of the Unicode `Cc` (control) category.
pub open spec fn is_control_char(c: char) -> bool {
    c as u32 <= 0x1F || (0x7F <= c as u32 && c as u32 <= 0x9F)
}

/// Code points with the Unicode `White_Space` property.
pub open spec fn is_white_space_char(c: char) -> bool {
    ||| (0x09 <= c as u32 && c as u32 <= 0x0D)
    ||| c as u32 == 0x20
    ||| c as u32 == 0x85
    ||| c as u32 == 0xA0
    ||| c as u32 == 0x1680
    ||| (0x2000 <= c as u32 && c as u32 <= 0x200A)
    ||| c as u32 == 0x2028
    ||| c as u32 == 0x2029
    ||| c as u32 == 0x202F
    ||| c as u32 == 0x205F
    ||| c as u32 == 0x3000
}

/// A character that the encoder emits verbatim: anything that is not a
/// quote, not a backslash, not a control character, and not whitespace
/// other than the ordinary space.
pub open spec fn plain_char(c: char) -> bool {
    &&& c != '"'
    &&& c != '\\'
    &&& !is_control_char(c)
    &&& !(c != ' ' && is_white_space_char(c))
}

// ---------------------------------------------------------------------------
// Hexadecimal rendering of a code point
// ---------------------------------------------------------------------------

/// The lower-case hexadecimal digit for a value below sixteen.
pub open spec fn hex_digit(d: nat) -> char {
    if d == 0 { '0' } else if d == 1 { '1' } else if d == 2 { '2' } else if d == 3 { '3' }
    else if d == 4 { '4' } else if d == 5 { '5' } else if d == 6 { '6' } else if d == 7 { '7' }
    else if d == 8 { '8' } else if d == 9 { '9' } else if d == 10 { 'a' } else if d == 11 { 'b' }
    else if d == 12 { 'c' } else if d == 13 { 'd' } else if d == 14 { 'e' } else { 'f' }
}

/// The lower-case hexadecimal digits of `n`, most significant first,
/// without leading zeros (a single `'0'` for zero).
pub open spec fn hex_rep(n: nat) -> Seq<char>
    decreases n,
{
    if n < 16 {
        seq![hex_digit(n)]
    } else {
        hex_rep(n / 16) + seq![hex_digit(n % 16)]
    }
}

/// Pads a digit sequence with trailing `'x'` characters to a width of six.
pub open spec fn pad_to_six(digits: Seq<char>) -> Seq<char> {
    if digits.len() < 6 {
        digits + Seq::new((6 - digits.len()) as nat, |i: int| 'x')
    } else {
        digits
    }
}

// ---------------------------------------------------------------------------
// The encoding itself
// ---------------------------------------------------------------------------

/// The escape sequence that the encoder emits for one character.
pub open spec fn esc_char(c: char) -> Seq<char> {
    if c == '"' {
        seq!['\\', '"']
    } else if c == '\\' {
        seq!['\\', '\\']
    } else if c == '\u{8}' {
        seq!['\\', 'b']
    } else if c == '\u{C}' {
        seq!['\\', 'f']
    } else if c == '\n' {
        seq!['\\', 'n']
    } else if c == '\r' {
        seq!['\\', 'r']
    } else if c == '\t' {
        seq!['\\', 't']
    } else if c != ' ' && (is_white_space_char(c) || is_control_char(c)) {
        seq!['\\', 'U'] + pad_to_six(hex_rep(c as u32 as nat))
    } else {
        seq![c]
    }
}

/// The escaped form of a whole character sequence, before quoting.
pub open spec fn escape_seq(s: Seq<char>) -> Seq<char>
    decreases s.len(),
{
    if s.len() == 0 {
        Seq::empty()
    } else {
        esc_char(s[0]) + escape_seq(s.drop_first())
    }
}

/// The quoted, escaped literal for `s`: what `to_lit` returns.
pub open spec fn lit_of(s: Seq<char>) -> Seq<char> {
    seq!['"'] + escape_seq(s) + seq!['"']
}

// ---------------------------------------------------------------------------
// Executable encoder
// ---------------------------------------------------------------------------

/// Relies on `String::push`: appends the given character to the end of the
/// string.
#[verifier::external_body]
fn push_char(s: &mut String, c: char)
    ensures
        final(s)@ == old(s)@ + seq![c],
{
    s.push(c);
}

fn is_control(c: char) -> (b: bool)
    ensures
        b == is_control_char(c),
{
    let u = c as u32;
    u <= 0x1F || (0x7F <= u && u <= 0x9F)
}

fn is_white_space(c: char) -> (b: bool)
    ensures
        b == is_white_space_char(c),
{
    let u = c as u32;
    (0x09 <= u && u <= 0x0D) || u == 0x20 || u == 0x85 || u == 0xA0 || u == 0x1680
        || (0x2000 <= u && u <= 0x200A) || u == 0x2028 || u == 0x2029 || u == 0x202F || u == 0x205F
        || u == 0x3000
}

fn hex_digit_char(d: u32) -> (c: char)
    requires
        d < 16,
    ensures
        c == hex_digit(d as nat),
{
    if d == 0 { '0' } else if d == 1 { '1' } else if d == 2 { '2' } else if d == 3 { '3' }
    else if d == 4 { '4' } else if d == 5 { '5' } else if d == 6 { '6' } else if d == 7 { '7' }
    else if d == 8 { '8' } else if d == 9 { '9' } else if d == 10 { 'a' } else if d == 11 { 'b' }
    else if d == 12 { 'c' } else if d == 13 { 'd' } else if d == 14 { 'e' } else { 'f' }
}

/// `16^k`, the number of values a `k`-digit hexadecimal field can hold.
pub open spec fn pow16(k: nat) -> nat
    decreases k,
{
    if k == 0 { 1 } else { 16 * pow16((k - 1) as nat) }
}

/// `hex_rep` needs at most `k` digits for values below `16^k`.
proof fn lemma_hex_rep_len_le(n: nat, k: nat)
    requires
        1 <= k,
        n < pow16(k),
    ensures
        hex_rep(n).len() <= k,
    decreases k,
{
    if n >= 16 {
        assert(pow16(k) == 16 * pow16((k - 1) as nat));
        assert(n / 16 < pow16((k - 1) as nat)) by (nonlinear_arith)
            requires n < 16 * pow16((k - 1) as nat), n >= 16,
        {}
        lemma_hex_rep_len_le(n / 16, (k - 1) as nat);
    }
}

/// Appends the six-character hexadecimal field for `u` (digits, then `'x'`
/// padding) to `out`.
fn push_hex_field(out: &mut String, u: u32)
    requires
        u < 0x10000,
    ensures
        final(out)@ == old(out)@ + pad_to_six(hex_rep(u as nat)),
{
    let mut digits: Vec<char> = Vec::new();
    let mut m: u32 = u;
    while m >= 16
        invariant
            hex_rep(u as nat) == hex_rep(m as nat) + digits@.reverse(),
            m <= u,
        decreases m,
    {
        let ghost old_digits = digits@;
        digits.push(hex_digit_char(m % 16));
        proof {
            assert(digits@.reverse() =~= seq![hex_digit((m % 16) as nat)] + old_digits.reverse());
            assert(hex_rep(m as nat) == hex_rep((m / 16) as nat) + seq![hex_digit((m % 16) as nat)]);
            assert(hex_rep(u as nat) =~= hex_rep((m / 16) as nat) + digits@.reverse());
        }
        m = m / 16;
    }
    let ghost old_digits = digits@;
    digits.push(hex_digit_char(m));
    proof {
        assert(digits@.reverse() =~= seq![hex_digit(m as nat)] + old_digits.reverse());
        assert(hex_rep(m as nat) == seq![hex_digit(m as nat)]);
        assert(hex_rep(u as nat) =~= digits@.reverse());
        assert(pow16(0) == 1);
        assert(pow16(1) == 16);
        assert(pow16(2) == 256);
        assert(pow16(3) == 4096);
        assert(pow16(4) == 0x10000);
        lemma_hex_rep_len_le(u as nat, 4);
    }
    let k = digits.len();
    let ghost base = out@;
    let mut j: usize = 0;
    while j < k
        invariant
            j <= k,
            k == digits@.len(),
            digits@.reverse() == hex_rep(u as nat),
            k <= 4,
            out@ == base + hex_rep(u as nat).take(j as int),
        decreases k - j,
    {
        push_char(out, digits[k - 1 - j]);
        proof {
            assert(digits@.reverse()[j as int] == digits@[k - 1 - j]);
            assert(hex_rep(u as nat).take(j + 1) =~= hex_rep(u as nat).take(j as int).push(
                hex_rep(u as nat)[j as int],
            ));
            assert(out@ =~= base + hex_rep(u as nat).take(j + 1));
        }
        j = j + 1;
    }
    proof {
        assert(hex_rep(u as nat).take(k as int) =~= hex_rep(u as nat));
    }
    while j < 6
        invariant
            k <= j <= 6,
            k == hex_rep(u as nat).len(),
            out@ == base + hex_rep(u as nat) + Seq::new((j - k) as nat, |i: int| 'x'),
        decreases 6 - j,
    {
        push_char(out, 'x');
        proof {
            assert(out@ =~= base + hex_rep(u as nat) + Seq::new((j + 1 - k) as nat, |i: int| 'x'));
        }
        j = j + 1;
    }
    proof {
        assert(out@ =~= base + pad_to_six(hex_rep(u as nat)));
    }
}

/// Appends the escape sequence for one character to `out`.
fn push_escaped(out: &mut String, c: char)
    ensures
        final(out)@ == old(out)@ + esc_char(c),
{
    if c == '"' {
        push_char(out, '\\');
        push_char(out, '"');
        assert(out@ =~= old(out)@ + esc_char(c));
    } else if c == '\\' {
        push_char(out, '\\');
        push_char(out, '\\');
        assert(out@ =~= old(out)@ + esc_char(c));
    } else if c == '\u{8}' {
        push_char(out, '\\');
        push_char(out, 'b');
        assert(out@ =~= old(out)@ + esc_char(c));
    } else if c == '\u{C}' {
        push_char(out, '\\');
        push_char(out, 'f');
        assert(out@ =~= old(out)@ + esc_char(c));
    } else if c == '\n' {
        push_char(out, '\\');
        push_char(out, 'n');
        assert(out@ =~= old(out)@ + esc_char(c));
    } else if c == '\r' {
        push_char(out, '\\');
        push_char(out, 'r');
        assert(out@ =~= old(out)@ + esc_char(c));
    } else if c == '\t' {
        push_char(out, '\\');
        push_char(out, 't');
        assert(out@ =~= old(out)@ + esc_char(c));
    } else {
        let special = c != ' ' && (is_white_space(c) || is_control(c));
        if special {
            push_char(out, '\\');
            push_char(out, 'U');
            push_hex_field(out, c as u32);
            assert(out@ =~= old(out)@ + esc_char(c));
        } else {
            push_char(out, c);
            assert(out@ =~= old(out)@ + esc_char(c));
        }
    }
}

/// Escaping a sequence extended by one character appends that character's
/// escape sequence.
proof fn lemma_escape_seq_push(s: Seq<char>, c: char)
    ensures
        escape_seq(s.push(c)) == escape_seq(s) + esc_char(c),
    decreases s.len(),
{
    if s.len() == 0 {
        assert(s.push(c).drop_first() =~= Seq::<char>::empty());
        assert(s.push(c)[0] == c);
        assert(escape_seq(Seq::<char>::empty()) == Seq::<char>::empty());
        assert(escape_seq(s) == Seq::<char>::empty());
        assert(escape_seq(s.push(c)) == esc_char(c) + escape_seq(s.push(c).drop_first()));
        assert(escape_seq(s.push(c)) =~= escape_seq(s) + esc_char(c));
    } else {
        let t = s.push(c);
        assert(t.len() == s.len() + 1);
        assert(escape_seq(t) == esc_char(t[0]) + escape_seq(t.drop_first()));
        assert(t[0] == s[0]);
        assert(t.drop_first() =~= s.drop_first().push(c));
        lemma_escape_seq_push(s.drop_first(), c);
        assert(escape_seq(t.drop_first()) == escape_seq(s.drop_first()) + esc_char(c));
        assert(escape_seq(s) == esc_char(s[0]) + escape_seq(s.drop_first()));
        assert(escape_seq(t) =~= escape_seq(s) + esc_char(c));
    }
}

// ---------------------------------------------------------------------------
// The decoding grammar, and the laws the encoder obeys
// ---------------------------------------------------------------------------

/// A lower-case hexadecimal digit.
pub open spec fn is_hex_digit_char(c: char) -> bool {
    (0x30 <= c as u32 && c as u32 <= 0x39) || (0x61 <= c as u32 && c as u32 <= 0x66)
}

/// The value of a lower-case hexadecimal digit.
pub open spec fn hex_val_of(c: char) -> nat
    recommends
        is_hex_digit_char(c),
{
    if c as u32 <= 0x39 {
        (c as u32 - 0x30) as nat
    } else {
        (c as u32 - 0x57) as nat
    }
}

/// Every character of `f` is the padding character `'x'`.
pub open spec fn all_pad(f: Seq<char>) -> bool {
    forall|i: int| 0 <= i < f.len() ==> f[i] == 'x'
}

/// Reads a hexadecimal field as a reader of the generated literal would:
/// hexadecimal digits first, then nothing but `'x'` padding. `acc` is the
/// value read so far and `seen` whether any digit was read yet.
pub open spec fn parse_hex_field(f: Seq<char>, acc: nat, seen: bool) -> Option<nat>
    decreases f.len(),
{
    if f.len() == 0 {
        if seen {
            Some(acc)
        } else {
            None
        }
    } else if is_hex_digit_char(f[0]) {
        parse_hex_field(f.drop_first(), acc * 16 + hex_val_of(f[0]), true)
    } else if f[0] == 'x' && seen && all_pad(f) {
        Some(acc)
    } else {
        None
    }
}

/// Decodes the body of a literal (the text between the quotes) under the
/// target format's string-literal grammar. `None` for ill-formed bodies.
pub open spec fn unescape(s: Seq<char>) -> Option<Seq<char>>
    decreases s.len(),
{
    if s.len() == 0 {
        Some(Seq::empty())
    } else if s[0] == '"' {
        None
    } else if s[0] == '\\' {
        if s.len() < 2 {
            None
        } else {
            let e = s[1];
            if e == '"' || e == '\\' {
                match unescape(s.skip(2)) {
                    Some(u) => Some(seq![e] + u),
                    None => None,
                }
            } else if e == 'b' {
                match unescape(s.skip(2)) {
                    Some(u) => Some(seq!['\u{8}'] + u),
                    None => None,
                }
            } else if e == 'f' {
                match unescape(s.skip(2)) {
                    Some(u) => Some(seq!['\u{C}'] + u),
                    None => None,
                }
            } else if e == 'n' {
                match unescape(s.skip(2)) {
                    Some(u) => Some(seq!['\n'] + u),
                    None => None,
                }
            } else if e == 'r' {
                match unescape(s.skip(2)) {
                    Some(u) => Some(seq!['\r'] + u),
                    None => None,
                }
            } else if e == 't' {
                match unescape(s.skip(2)) {
                    Some(u) => Some(seq!['\t'] + u),
                    None => None,
                }
            } else if e == 'U' {
                if s.len() < 8 {
                    None
                } else {
                    match parse_hex_field(s.subrange(2, 8), 0, false) {
                        Some(v) => match unescape(s.skip(8)) {
                            Some(u) => Some(seq![(v as u32) as char] + u),
                            None => None,
                        },
                        None => None,
                    }
                }
            } else {
                None
            }
        }
    } else {
        match unescape(s.skip(1)) {
            Some(u) => Some(seq![s[0]] + u),
            None => None,
        }
    }
}

/// Decodes a full literal: a leading quote, a body, a closing quote.
pub open spec fn decode_lit(t: Seq<char>) -> Option<Seq<char>> {
    if t.len() >= 2 && t[0] == '"' && t[t.len() - 1] == '"' {
        unescape(t.subrange(1, t.len() - 1))
    } else {
        None
    }
}

proof fn lemma_hex_digit_props(d: nat)
    requires
        d < 16,
    ensures
        is_hex_digit_char(hex_digit(d)),
        hex_val_of(hex_digit(d)) == d,
        hex_digit(d) != 'x',
{
}

/// Reading the digits of `n` followed by `suffix` accumulates `n` into the
/// value read so far.
proof fn lemma_parse_hex_rep(n: nat, acc: nat, seen: bool, suffix: Seq<char>)
    ensures
        parse_hex_field(hex_rep(n) + suffix, acc, seen) == parse_hex_field(
            suffix,
            acc * pow16(hex_rep(n).len()) + n,
            true,
        ),
    decreases n,
{
    if n < 16 {
        let f = hex_rep(n) + suffix;
        lemma_hex_digit_props(n);
        assert(f[0] == hex_digit(n));
        assert(f.drop_first() =~= suffix);
        assert(pow16(0) == 1);
        assert(pow16(1) == 16);
        assert(parse_hex_field(f, acc, seen) == parse_hex_field(suffix, acc * 16 + n, true));
    } else {
        let d = hex_digit(n % 16);
        let k = hex_rep(n / 16).len();
        lemma_hex_digit_props(n % 16);
        assert(hex_rep(n) + suffix =~= hex_rep(n / 16) + (seq![d] + suffix));
        lemma_parse_hex_rep(n / 16, acc, seen, seq![d] + suffix);
        let a = acc * pow16(k) + n / 16;
        let g = seq![d] + suffix;
        assert(g[0] == d);
        assert(g.drop_first() =~= suffix);
        assert(parse_hex_field(g, a, true) == parse_hex_field(suffix, a * 16 + n % 16, true));
        assert(hex_rep(n).len() == k + 1);
        assert(pow16(k + 1) == 16 * pow16(k));
        assert(a * 16 + n % 16 == acc * pow16(k + 1) + n) by (nonlinear_arith)
            requires
                a == acc * pow16(k) + n / 16,
                pow16(k + 1) == 16 * pow16(k),
                n % 16 == n - 16 * (n / 16),
        {}
    }
}

/// The padded hexadecimal field for `n` reads back as exactly `n`.
proof fn lemma_parse_hex_pad(n: nat)
    ensures
        parse_hex_field(pad_to_six(hex_rep(n)), 0, false) == Some(n),
{
    let ds = hex_rep(n);
    if ds.len() < 6 {
        let xs = Seq::new((6 - ds.len()) as nat, |i: int| 'x');
        assert(pad_to_six(ds) == ds + xs);
        lemma_parse_hex_rep(n, 0, false, xs);
        assert(0 * pow16(ds.len()) + n == n);
        if xs.len() == 0 {
            assert(parse_hex_field(xs, n, true) == Some(n));
        } else {
            assert(xs[0] == 'x');
            assert(all_pad(xs));
            assert(parse_hex_field(xs, n, true) == Some(n));
        }
    } else {
        assert(pad_to_six(ds) == ds);
        let e = Seq::<char>::empty();
        assert(ds + e =~= ds);
        lemma_parse_hex_rep(n, 0, false, e);
        assert(0 * pow16(ds.len()) + n == n);
        assert(parse_hex_field(e, n, true) == Some(n));
    }
}

/// Decoding one emitted escape sequence recovers the character it encodes,
/// whatever follows it.
proof fn lemma_unescape_esc(c: char, t: Seq<char>)
    ensures
        unescape(esc_char(c) + t) == match unescape(t) {
            Some(u) => Some(seq![c] + u),
            None => None::<Seq<char>>,
        },
{
    let f = esc_char(c) + t;
    if c == '"' || c == '\\' || c == '\u{8}' || c == '\u{C}' || c == '\n' || c == '\r' || c
        == '\t' {
        assert(f[0] == '\\');
        assert(f.skip(2) =~= t);
    } else if c != ' ' && (is_white_space_char(c) || is_control_char(c)) {
        let cp = c as u32 as nat;
        assert(cp <= 0x3000);
        assert(pow16(0) == 1);
        assert(pow16(1) == 16);
        assert(pow16(2) == 256);
        assert(pow16(3) == 4096);
        assert(pow16(4) == 0x10000);
        lemma_hex_rep_len_le(cp, 4);
        let pad = pad_to_six(hex_rep(cp));
        assert(pad.len() == 6);
        assert(esc_char(c) == seq!['\\', 'U'] + pad);
        assert(f.len() == 8 + t.len());
        assert(f[0] == '\\');
        assert(f[1] == 'U');
        assert(f.subrange(2, 8) =~= pad);
        lemma_parse_hex_pad(cp);
        assert(parse_hex_field(f.subrange(2, 8), 0, false) == Some(cp));
        vstd::utf8::char_u32_cast(c, c as u32);
        assert((cp as u32) as char == c);
        assert(f.skip(8) =~= t);
    } else {
        assert(esc_char(c) == seq![c]);
        assert(f[0] == c);
        assert(f.skip(1) =~= t);
    }
}

/// Decoding the escaped form of `s` recovers `s`.
proof fn lemma_unescape_escape_seq(s: Seq<char>)
    ensures
        unescape(escape_seq(s)) == Some(s),
    decreases s.len(),
{
    if s.len() == 0 {
        assert(escape_seq(s) == Seq::<char>::empty());
        assert(unescape(escape_seq(s)) == Some(Seq::<char>::empty()));
        assert(Seq::<char>::empty() =~= s);
    } else {
        lemma_unescape_escape_seq(s.drop_first());
        lemma_unescape_esc(s[0], escape_seq(s.drop_first()));
        assert(seq![s[0]] + s.drop_first() =~= s);
    }
}

/// Round trip: for every string `s`, decoding the encoder's output of `s`
/// under the target grammar yields exactly `s`.
pub proof fn lemma_lit_round_trip(s: Seq<char>)
    ensures
        decode_lit(lit_of(s)) == Some(s),
{
    let t = lit_of(s);
    assert(t.len() == escape_seq(s).len() + 2);
    assert(t[0] == '"');
    assert(t[t.len() - 1] == '"');
    assert(t.subrange(1, t.len() - 1) =~= escape_seq(s));
    lemma_unescape_escape_seq(s);
}

proof fn lemma_escape_seq_plain(s: Seq<char>)
    requires
        forall|i: int| 0 <= i < s.len() ==> plain_char(#[trigger] s[i]),
    ensures
        escape_seq(s) == s,
    decreases s.len(),
{
    if s.len() == 0 {
        assert(escape_seq(s) =~= s);
    } else {
        assert(plain_char(s[0]));
        assert(esc_char(s[0]) == seq![s[0]]);
        lemma_escape_seq_plain(s.drop_first());
        assert(seq![s[0]] + s.drop_first() =~= s);
    }
}

/// Identity fast path: a string without special characters is encoded as
/// itself between two quotes, nothing more.
pub proof fn lemma_lit_plain(s: Seq<char>)
    requires
        forall|i: int| 0 <= i < s.len() ==> plain_char(#[trigger] s[i]),
    ensures
        lit_of(s) == seq!['"'] + s + seq!['"'],
{
    lemma_escape_seq_plain(s);
}

/// Encodes `s` as a double-quoted, escaped literal.
///
/// Per character: a quote or backslash gets a backslash escape; backspace,
/// form feed, newline, carriage return and horizontal tab get their named
/// escapes; any other control or (non-space) whitespace character becomes
/// `\U` followed by its code point in lower-case hexadecimal, padded with
/// trailing `x` to six characters; everything else is emitted verbatim.
/// Total: it never fails.
pub fn to_lit(s: &str) -> (r: String)
    ensures
        r@ == lit_of(s@),
{
    let n = s.unicode_len();
    let mut r = String::new();
    push_char(&mut r, '"');
    let mut i: usize = 0;
    while i < n
        invariant
            i <= n,
            n == s@.len(),
            r@ == seq!['"'] + escape_seq(s@.take(i as int)),
        decreases n - i,
    {
        let c = s.get_char(i);
        push_escaped(&mut r, c);
        proof {
            lemma_escape_seq_push(s@.take(i as int), c);
            assert(s@.take(i + 1) =~= s@.take(i as int).push(c));
            assert(r@ =~= seq!['"'] + escape_seq(s@.take(i + 1)));
        }
        i = i + 1;
    }
    proof {
        assert(s@.take(n as int) =~= s@);
    }
    push_char(&mut r, '"');
    proof {
        assert(r@ =~= lit_of(s@));
    }
    r
}

} // verus!
