//! The JSON text layer used by the library's wire formats: string
//! escaping and its writer, and a recursive-descent reader for strings,
//! numbers and whitespace.  Every reader is verified against a spec-level
//! grammar function, and the escape round trip is proved, which carries
//! the conversation-store round trip.

use vstd::prelude::*;
use crate::text::digit_char;
use crate::text::digit_val;
use crate::text::digits_val;
use crate::text::is_digit;
use crate::text::char_from_code;

verus! {

// ===== characters =====

/// The lower-case hexadecimal digit for a value below 16.
pub open spec fn hex_char(d: int) -> char {
    if d < 10 {
        digit_char(d)
    } else if d == 10 {
        'a'
    } else if d == 11 {
        'b'
    } else if d == 12 {
        'c'
    } else if d == 13 {
        'd'
    } else if d == 14 {
        'e'
    } else {
        'f'
    }
}

/// The value of a hexadecimal digit character, upper or lower case;
/// 16 when the character is no hexadecimal digit.
pub open spec fn hex_val(c: char) -> int {
    if is_digit(c) {
        digit_val(c)
    } else if c == 'a' || c == 'A' {
        10
    } else if c == 'b' || c == 'B' {
        11
    } else if c == 'c' || c == 'C' {
        12
    } else if c == 'd' || c == 'D' {
        13
    } else if c == 'e' || c == 'E' {
        14
    } else if c == 'f' || c == 'F' {
        15
    } else {
        16
    }
}

/// JSON insignificant whitespace.
pub open spec fn is_ws(c: char) -> bool {
    c == ' ' || c == '\n' || c == '\r' || c == '\t'
}

// ===== escaping (encoder side) =====

/// The escape of one character inside a JSON string literal: quote and
/// backslash are escaped, the common control characters by their short
/// escapes, the remaining control characters numerically, and everything
/// else stands for itself.
pub open spec fn esc_char(c: char) -> Seq<char> {
    if c == '"' {
        seq!['\\', '"']
    } else if c == '\\' {
        seq!['\\', '\\']
    } else if c == '\n' {
        seq!['\\', 'n']
    } else if c == '\r' {
        seq!['\\', 'r']
    } else if c == '\t' {
        seq!['\\', 't']
    } else if (c as u32) < 0x20 {
        seq!['\\', 'u', '0', '0', hex_char((c as u32) as int / 16), hex_char((c as u32) as int % 16)]
    } else {
        seq![c]
    }
}

/// The escaped form of a whole character sequence.
pub open spec fn esc(s: Seq<char>) -> Seq<char>
    decreases s.len(),
{
    if s.len() == 0 {
        Seq::empty()
    } else {
        esc_char(s[0]) + esc(s.skip(1))
    }
}

/// A JSON string literal: the escaped characters between quotes.
pub open spec fn jstr(s: Seq<char>) -> Seq<char> {
    seq!['"'] + esc(s) + seq!['"']
}

pub proof fn lemma_esc_append(s: Seq<char>, t: Seq<char>)
    ensures
        esc(s + t) == esc(s) + esc(t),
    decreases s.len(),
{
    if s.len() == 0 {
        assert(s + t =~= t);
        assert(esc(s) + esc(t) =~= esc(t));
    } else {
        assert((s + t).skip(1) =~= s.skip(1) + t);
        lemma_esc_append(s.skip(1), t);
        assert(esc(s + t) =~= esc(s) + esc(t));
    }
}

pub proof fn lemma_esc_take_step(s: Seq<char>, i: int)
    requires
        0 <= i < s.len(),
    ensures
        esc(s.take(i + 1)) == esc(s.take(i)) + esc_char(s[i]),
{
    assert(s.take(i + 1) =~= s.take(i) + seq![s[i]]);
    lemma_esc_append(s.take(i), seq![s[i]]);
    assert(seq![s[i]].skip(1) =~= Seq::<char>::empty());
    assert(esc(Seq::<char>::empty()) =~= Seq::<char>::empty());
    assert(esc(seq![s[i]]) == esc_char(s[i]) + esc(seq![s[i]].skip(1)));
    assert(esc(seq![s[i]]) =~= esc_char(s[i]));
}

/// One hexadecimal digit as a character.
fn hex_to_char(d: u32) -> (c: char)
    requires
        d < 16,
    ensures
        c == hex_char(d as int),
{
    if d == 0 {
        '0'
    } else if d == 1 {
        '1'
    } else if d == 2 {
        '2'
    } else if d == 3 {
        '3'
    } else if d == 4 {
        '4'
    } else if d == 5 {
        '5'
    } else if d == 6 {
        '6'
    } else if d == 7 {
        '7'
    } else if d == 8 {
        '8'
    } else if d == 9 {
        '9'
    } else if d == 10 {
        'a'
    } else if d == 11 {
        'b'
    } else if d == 12 {
        'c'
    } else if d == 13 {
        'd'
    } else if d == 14 {
        'e'
    } else {
        'f'
    }
}

/// Append the escape of one character.
fn push_escaped(out: &mut Vec<char>, c: char)
    ensures
        final(out)@ == old(out)@ + esc_char(c),
{
    if c == '"' {
        out.push('\\');
        out.push('"');
    } else if c == '\\' {
        out.push('\\');
        out.push('\\');
    } else if c == '\n' {
        out.push('\\');
        out.push('n');
    } else if c == '\r' {
        out.push('\\');
        out.push('r');
    } else if c == '\t' {
        out.push('\\');
        out.push('t');
    } else if (c as u32) < 0x20 {
        out.push('\\');
        out.push('u');
        out.push('0');
        out.push('0');
        out.push(hex_to_char((c as u32) / 16));
        out.push(hex_to_char((c as u32) % 16));
    } else {
        out.push(c);
    }
    assert(final(out)@ =~= old(out)@ + esc_char(c));
}

/// Append a JSON string literal holding `s`.
pub fn write_jstr(out: &mut Vec<char>, s: &Vec<char>)
    ensures
        final(out)@ == old(out)@ + jstr(s@),
{
    out.push('"');
    let ghost base = out@;
    let mut i: usize = 0;
    while i < s.len()
        invariant
            i <= s@.len(),
            base == old(out)@ + seq!['"'],
            out@ == base + esc(s@.take(i as int)),
        decreases s@.len() - i,
    {
        proof {
            lemma_esc_take_step(s@, i as int);
        }
        push_escaped(out, s[i]);
        i = i + 1;
    }
    assert(s@.take(s@.len() as int) =~= s@);
    out.push('"');
    assert(final(out)@ =~= old(out)@ + jstr(s@));
}

// ===== reading: whitespace =====

/// The position after the run of whitespace beginning at `i`.
pub open spec fn sp_ws(s: Seq<char>, i: int) -> int
    decreases s.len() - i,
{
    if 0 <= i && i < s.len() && is_ws(s[i]) {
        sp_ws(s, i + 1)
    } else {
        i
    }
}

fn ws_char(c: char) -> (r: bool)
    ensures
        r == is_ws(c),
{
    c == ' ' || c == '\n' || c == '\r' || c == '\t'
}

/// Skip whitespace from `i`.
pub fn p_ws(s: &Vec<char>, i: usize) -> (r: usize)
    requires
        i <= s@.len(),
    ensures
        r as int == sp_ws(s@, i as int),
        i <= r <= s@.len(),
{
    let mut j = i;
    while j < s.len() && ws_char(s[j])
        invariant
            i <= j <= s@.len(),
            sp_ws(s@, i as int) == sp_ws(s@, j as int),
        decreases s@.len() - j,
    {
        j = j + 1;
    }
    j
}

// ===== reading: string literals =====

/// The character for a one-letter escape, if the letter is one.
pub open spec fn unescape1(e: char) -> Option<char> {
    if e == '"' {
        Some('"')
    } else if e == '\\' {
        Some('\\')
    } else if e == '/' {
        Some('/')
    } else if e == 'n' {
        Some('\n')
    } else if e == 'r' {
        Some('\r')
    } else if e == 't' {
        Some('\t')
    } else if e == 'b' {
        Some('\u{8}')
    } else if e == 'f' {
        Some('\u{c}')
    } else {
        None
    }
}

/// Read the four hex digits of a `\u` escape beginning at `i` (the
/// first digit), with a following low-surrogate escape when the first
/// names a high surrogate: the decoded character and the position after
/// the escape.  Lone surrogates are refused.
pub open spec fn sp_u_escape(s: Seq<char>, i: int) -> Option<(char, int)> {
    if 0 <= i && i + 4 <= s.len() {
        let h1 = hex_val(s[i]);
        let h2 = hex_val(s[i + 1]);
        let h3 = hex_val(s[i + 2]);
        let h4 = hex_val(s[i + 3]);
        if h1 < 16 && h2 < 16 && h3 < 16 && h4 < 16 {
            let code = h1 * 4096 + h2 * 256 + h3 * 16 + h4;
            if code < 0xD800 || code >= 0xE000 {
                Some((((code as u32) as char), i + 4))
            } else if code < 0xDC00 {
                if i + 10 <= s.len() && s[i + 4] == '\\' && s[i + 5] == 'u' {
                    let g1 = hex_val(s[i + 6]);
                    let g2 = hex_val(s[i + 7]);
                    let g3 = hex_val(s[i + 8]);
                    let g4 = hex_val(s[i + 9]);
                    if g1 < 16 && g2 < 16 && g3 < 16 && g4 < 16 {
                        let low = g1 * 4096 + g2 * 256 + g3 * 16 + g4;
                        if 0xDC00 <= low && low < 0xE000 {
                            let pair = 0x10000 + (code - 0xD800) * 0x400 + (low - 0xDC00);
                            Some((((pair as u32) as char), i + 10))
                        } else {
                            None
                        }
                    } else {
                        None
                    }
                } else {
                    None
                }
            } else {
                None
            }
        } else {
            None
        }
    } else {
        None
    }
}

/// Read a string-literal body starting after the opening quote: the
/// decoded characters and the position after the closing quote.  Raw
/// control characters are refused; a high surrogate escape must be
/// followed by a low one, the pair naming one supplementary character,
/// and a lone surrogate escape is refused.
pub open spec fn sp_str_body(s: Seq<char>, i: int) -> Option<(Seq<char>, int)>
    decreases s.len() - i,
{
    if !(0 <= i && i < s.len()) {
        None
    } else {
        let c = s[i];
        if c == '"' {
            Some((Seq::empty(), i + 1))
        } else if c == '\\' {
            if i + 1 < s.len() {
                let e = s[i + 1];
                if e == 'u' {
                    match sp_u_escape(s, i + 2) {
                        Some((ch, n)) => if i < n && n <= s.len() {
                            match sp_str_body(s, n) {
                                Some((t, j)) => Some((seq![ch] + t, j)),
                                None => None,
                            }
                        } else {
                            None
                        },
                        None => None,
                    }
                } else {
                    match unescape1(e) {
                        Some(ch) => match sp_str_body(s, i + 2) {
                            Some((t, j)) => Some((seq![ch] + t, j)),
                            None => None,
                        },
                        None => None,
                    }
                }
            } else {
                None
            }
        } else if (c as u32) < 0x20 {
            None
        } else {
            match sp_str_body(s, i + 1) {
                Some((t, j)) => Some((seq![c] + t, j)),
                None => None,
            }
        }
    }
}

/// Read a whole string literal at `i`, opening quote included.
pub open spec fn sp_string(s: Seq<char>, i: int) -> Option<(Seq<char>, int)> {
    if 0 <= i && i < s.len() && s[i] == '"' {
        sp_str_body(s, i + 1)
    } else {
        None
    }
}

pub proof fn lemma_sp_str_body_bounds(s: Seq<char>, i: int)
    ensures
        match sp_str_body(s, i) {
            Some((t, j)) => i < j <= s.len(),
            None => true,
        },
    decreases s.len() - i,
{
    if 0 <= i && i < s.len() {
        let c = s[i];
        if c == '\\' && i + 1 < s.len() {
            if s[i + 1] == 'u' {
                match sp_u_escape(s, i + 2) {
                    Some((ch, n)) => {
                        if i < n && n <= s.len() {
                            lemma_sp_str_body_bounds(s, n);
                        }
                    },
                    None => {},
                }
            } else {
                lemma_sp_str_body_bounds(s, i + 2);
            }
        } else if c != '"' && (c as u32) >= 0x20 {
            lemma_sp_str_body_bounds(s, i + 1);
        }
    }
}

fn hex_value(c: char) -> (r: u32)
    ensures
        r as int == hex_val(c),
{
    if c == '0' {
        0
    } else if c == '1' {
        1
    } else if c == '2' {
        2
    } else if c == '3' {
        3
    } else if c == '4' {
        4
    } else if c == '5' {
        5
    } else if c == '6' {
        6
    } else if c == '7' {
        7
    } else if c == '8' {
        8
    } else if c == '9' {
        9
    } else if c == 'a' || c == 'A' {
        10
    } else if c == 'b' || c == 'B' {
        11
    } else if c == 'c' || c == 'C' {
        12
    } else if c == 'd' || c == 'D' {
        13
    } else if c == 'e' || c == 'E' {
        14
    } else if c == 'f' || c == 'F' {
        15
    } else {
        16
    }
}

fn unescape_char(e: char) -> (r: Option<char>)
    ensures
        r == unescape1(e),
{
    if e == '"' {
        Some('"')
    } else if e == '\\' {
        Some('\\')
    } else if e == '/' {
        Some('/')
    } else if e == 'n' {
        Some('\n')
    } else if e == 'r' {
        Some('\r')
    } else if e == 't' {
        Some('\t')
    } else if e == 'b' {
        Some('\u{8}')
    } else if e == 'f' {
        Some('\u{c}')
    } else {
        None
    }
}

/// Read one `\u` escape's digits (and a paired low surrogate when
/// needed); mirrors `sp_u_escape`.
fn p_u_escape(s: &Vec<char>, i: usize) -> (r: Option<(char, usize)>)
    requires
        i <= s@.len(),
    ensures
        match r {
            Some((ch, n)) => sp_u_escape(s@, i as int) == Some((ch, n as int)) && i < n
                <= s@.len(),
            None => sp_u_escape(s@, i as int) is None,
        },
{
    if s.len() - i < 4 {
        return None;
    }
    let h1 = hex_value(s[i]);
    let h2 = hex_value(s[i + 1]);
    let h3 = hex_value(s[i + 2]);
    let h4 = hex_value(s[i + 3]);
    if !(h1 < 16 && h2 < 16 && h3 < 16 && h4 < 16) {
        return None;
    }
    let code: u32 = h1 * 4096 + h2 * 256 + h3 * 16 + h4;
    if code < 0xD800 || code >= 0xE000 {
        let ch = char_from_code(code);
        proof {
            vstd::utf8::char_u32_cast(ch, code);
        }
        Some((ch, i + 4))
    } else if code < 0xDC00 {
        if s.len() - i >= 10 && s[i + 4] == '\\' && s[i + 5] == 'u' {
            let g1 = hex_value(s[i + 6]);
            let g2 = hex_value(s[i + 7]);
            let g3 = hex_value(s[i + 8]);
            let g4 = hex_value(s[i + 9]);
            if g1 < 16 && g2 < 16 && g3 < 16 && g4 < 16 {
                let low: u32 = g1 * 4096 + g2 * 256 + g3 * 16 + g4;
                if 0xDC00 <= low && low < 0xE000 {
                    let pair: u32 = 0x10000 + (code - 0xD800) * 0x400 + (low - 0xDC00);
                    let ch = char_from_code(pair);
                    proof {
                        vstd::utf8::char_u32_cast(ch, pair);
                    }
                    Some((ch, i + 10))
                } else {
                    None
                }
            } else {
                None
            }
        } else {
            None
        }
    } else {
        None
    }
}

/// Read a string-literal body; mirrors `sp_str_body`.
fn p_str_body(s: &Vec<char>, i: usize) -> (r: Option<(Vec<char>, usize)>)
    requires
        i <= s@.len(),
    ensures
        match r {
            Some((v, j)) => sp_str_body(s@, i as int) == Some((v@, j as int)),
            None => sp_str_body(s@, i as int) is None,
        },
    decreases s@.len() - i,
{
    if i >= s.len() {
        return None;
    }
    let c = s[i];
    if c == '"' {
        Some((Vec::new(), i + 1))
    } else if c == '\\' {
        if i + 1 < s.len() {
            let e = s[i + 1];
            if e == 'u' {
                match p_u_escape(s, i + 2) {
                    Some((ch, n)) => match p_str_body(s, n) {
                        Some((t, j)) => {
                            let mut t2 = t;
                            t2.insert(0, ch);
                            assert(t2@ =~= seq![ch] + t@);
                            Some((t2, j))
                        },
                        None => None,
                    },
                    None => None,
                }
            } else {
                match unescape_char(e) {
                    Some(ch) => match p_str_body(s, i + 2) {
                        Some((t, j)) => {
                            let mut t2 = t;
                            t2.insert(0, ch);
                            assert(t2@ =~= seq![ch] + t@);
                            Some((t2, j))
                        },
                        None => None,
                    },
                    None => None,
                }
            }
        } else {
            None
        }
    } else if (c as u32) < 0x20 {
        None
    } else {
        match p_str_body(s, i + 1) {
            Some((t, j)) => {
                let mut t2 = t;
                t2.insert(0, c);
                assert(t2@ =~= seq![c] + t@);
                Some((t2, j))
            },
            None => None,
        }
    }
}

/// Read a whole string literal; mirrors `sp_string`.
pub fn p_string(s: &Vec<char>, i: usize) -> (r: Option<(Vec<char>, usize)>)
    requires
        i <= s@.len(),
    ensures
        match r {
            Some((v, j)) => sp_string(s@, i as int) == Some((v@, j as int)) && j <= s@.len(),
            None => sp_string(s@, i as int) is None,
        },
{
    if i < s.len() && s[i] == '"' {
        proof {
            lemma_sp_str_body_bounds(s@, i as int + 1);
        }
        p_str_body(s, i + 1)
    } else {
        None
    }
}

// ===== reading: unsigned numbers =====

/// The position after the run of decimal digits beginning at `i`.
pub open spec fn sp_digits(s: Seq<char>, i: int) -> int
    decreases s.len() - i,
{
    if 0 <= i && i < s.len() && is_digit(s[i]) {
        sp_digits(s, i + 1)
    } else {
        i
    }
}

/// Read an unsigned decimal number at `i`: no sign, no leading zero,
/// and the value must fit in a `u64`.
pub open spec fn sp_u64(s: Seq<char>, i: int) -> Option<(u64, int)> {
    let j = sp_digits(s, i);
    if !(0 <= i) || j <= i {
        None
    } else if s[i] == '0' && j > i + 1 {
        None
    } else {
        let v = digits_val(s.subrange(i, j));
        if v <= u64::MAX {
            Some((v as u64, j))
        } else {
            None
        }
    }
}

pub proof fn lemma_sp_digits_bounds(s: Seq<char>, i: int)
    requires
        0 <= i <= s.len(),
    ensures
        i <= sp_digits(s, i) <= s.len(),
        forall|k: int| i <= k < sp_digits(s, i) ==> is_digit(#[trigger] s[k]),
    decreases s.len() - i,
{
    if i < s.len() && is_digit(s[i]) {
        lemma_sp_digits_bounds(s, i + 1);
    }
}

proof fn lemma_digits_val_nonneg(s: Seq<char>)
    ensures
        digits_val(s) >= 0,
    decreases s.len(),
{
    if s.len() > 0 {
        lemma_digits_val_nonneg(s.drop_last());
    }
}

proof fn lemma_digits_val_mono(s: Seq<char>, k: int)
    requires
        0 <= k <= s.len(),
    ensures
        digits_val(s.take(k)) <= digits_val(s),
    decreases s.len() - k,
{
    if k == s.len() {
        assert(s.take(k) =~= s);
    } else {
        assert(s.take(k + 1).drop_last() =~= s.take(k));
        lemma_digits_val_nonneg(s.take(k));
        assert(digits_val(s.take(k)) <= digits_val(s.take(k + 1)));
        lemma_digits_val_mono(s, k + 1);
    }
}

fn digit_value(c: char) -> (r: u64)
    ensures
        r as int == digit_val(c),
{
    if c == '0' {
        0
    } else if c == '1' {
        1
    } else if c == '2' {
        2
    } else if c == '3' {
        3
    } else if c == '4' {
        4
    } else if c == '5' {
        5
    } else if c == '6' {
        6
    } else if c == '7' {
        7
    } else if c == '8' {
        8
    } else if c == '9' {
        9
    } else {
        10
    }
}

/// Read an unsigned decimal number; mirrors `sp_u64`.
pub fn p_u64(s: &Vec<char>, i: usize) -> (r: Option<(u64, usize)>)
    requires
        i <= s@.len(),
    ensures
        match r {
            Some((v, j)) => sp_u64(s@, i as int) == Some((v, j as int)) && i < j <= s@.len(),
            None => sp_u64(s@, i as int) is None,
        },
{
    proof {
        lemma_sp_digits_bounds(s@, i as int);
    }
    let mut j = i;
    while j < s.len() && digit_value(s[j]) < 10
        invariant
            i <= j <= s@.len(),
            sp_digits(s@, i as int) == sp_digits(s@, j as int),
        decreases s@.len() - j,
    {
        j = j + 1;
    }
    assert(j as int == sp_digits(s@, i as int));
    if j == i {
        return None;
    }
    if s[i] == '0' && j > i + 1 {
        return None;
    }
    let ghost digits = s@.subrange(i as int, j as int);
    let mut acc: u128 = 0;
    let mut k = i;
    while k < j
        invariant
            i < j <= s@.len(),
            i <= k <= j,
            j as int == sp_digits(s@, i as int),
            !(s@[i as int] == '0' && j > i + 1),
            digits == s@.subrange(i as int, j as int),
            forall|m: int| i <= m < j ==> is_digit(#[trigger] s@[m]),
            acc <= u64::MAX,
            acc as int == digits_val(digits.take(k - i)),
        decreases j - k,
    {
        let d = digit_value(s[k]);
        assert(d < 10);
        let next: u128 = acc * 10 + d as u128;
        proof {
            assert(digits.take(k - i + 1).drop_last() =~= digits.take(k - i));
            assert(digits.take(k - i + 1).last() == s@[k as int]);
            assert(next as int == digits_val(digits.take(k - i + 1)));
        }
        if next > u64::MAX as u128 {
            proof {
                lemma_digits_val_mono(digits, k - i + 1);
                assert(digits_val(digits) >= digits_val(digits.take(k - i + 1)));
                assert(digits_val(s@.subrange(i as int, j as int)) > u64::MAX);
                assert(sp_u64(s@, i as int) is None);
            }
            return None;
        }
        acc = next;
        k = k + 1;
    }
    assert(digits.take(j - i) =~= digits);
    Some((acc as u64, j))
}

// ===== scalar values and object pairs =====

/// The mathematical value of a scalar: a character sequence or a number.
pub enum ScalarView {
    Str(Seq<char>),
    Num(u64),
}

/// A scalar JSON value as the action grammar allows it: a string or an
/// unsigned number.
pub enum JsonScalar {
    Str(Vec<char>),
    Num(u64),
}

impl View for JsonScalar {
    type V = ScalarView;

    open spec fn view(&self) -> ScalarView {
        match self {
            JsonScalar::Str(v) => ScalarView::Str(v@),
            JsonScalar::Num(n) => ScalarView::Num(*n),
        }
    }
}

/// Read one scalar value at `i`.
pub open spec fn sp_scalar(s: Seq<char>, i: int) -> Option<(ScalarView, int)> {
    if 0 <= i && i < s.len() {
        if s[i] == '"' {
            match sp_string(s, i) {
                Some((v, j)) => Some((ScalarView::Str(v), j)),
                None => None,
            }
        } else if is_digit(s[i]) {
            match sp_u64(s, i) {
                Some((n, j)) => Some((ScalarView::Num(n), j)),
                None => None,
            }
        } else {
            None
        }
    } else {
        None
    }
}

/// Read one scalar value; mirrors `sp_scalar`.
pub fn p_scalar(s: &Vec<char>, i: usize) -> (r: Option<(JsonScalar, usize)>)
    requires
        i <= s@.len(),
    ensures
        match r {
            Some((v, j)) => sp_scalar(s@, i as int) == Some((v@, j as int)) && j <= s@.len(),
            None => sp_scalar(s@, i as int) is None,
        },
{
    if i < s.len() {
        if s[i] == '"' {
            proof {
                lemma_sp_str_body_bounds(s@, i as int + 1);
            }
            match p_string(s, i) {
                Some((v, j)) => Some((JsonScalar::Str(v), j)),
                None => None,
            }
        } else if digit_value(s[i]) < 10 {
            match p_u64(s, i) {
                Some((n, j)) => Some((JsonScalar::Num(n), j)),
                None => None,
            }
        } else {
            None
        }
    } else {
        None
    }
}

/// The mathematical value of a list of key/value pairs.
pub open spec fn pairs_view(v: Seq<(Vec<char>, JsonScalar)>) -> Seq<(Seq<char>, ScalarView)> {
    Seq::new(v.len(), |i: int| (v[i].0@, v[i].1@))
}

/// Read a non-empty comma-separated list of `"key": scalar` pairs
/// starting at the first key's quote; stops before the closing brace.
pub open spec fn sp_pairs(s: Seq<char>, i: int) -> Option<(Seq<(Seq<char>, ScalarView)>, int)>
    decreases s.len() - i,
{
    match sp_string(s, i) {
        None => None,
        Some((k, j1)) => {
            let j2 = sp_ws(s, j1);
            if j2 < s.len() && s[j2] == ':' {
                let j3 = sp_ws(s, j2 + 1);
                match sp_scalar(s, j3) {
                    None => None,
                    Some((v, j4)) => {
                        let j5 = sp_ws(s, j4);
                        if j5 < s.len() && s[j5] == ',' {
                            let j6 = sp_ws(s, j5 + 1);
                            if i < j6 && j6 <= s.len() {
                                match sp_pairs(s, j6) {
                                    Some((rest, j7)) => Some((seq![(k, v)] + rest, j7)),
                                    None => None,
                                }
                            } else {
                                None
                            }
                        } else {
                            Some((seq![(k, v)], j4))
                        }
                    },
                }
            } else {
                None
            }
        },
    }
}

/// Read a pair list; mirrors `sp_pairs`.
pub fn p_pairs(s: &Vec<char>, i: usize) -> (r: Option<(Vec<(Vec<char>, JsonScalar)>, usize)>)
    requires
        i <= s@.len(),
    ensures
        match r {
            Some((v, j)) => sp_pairs(s@, i as int) == Some((pairs_view(v@), j as int)) && j
                <= s@.len(),
            None => sp_pairs(s@, i as int) is None,
        },
    decreases s@.len() - i,
{
    proof {
        lemma_sp_str_body_bounds(s@, i as int + 1);
    }
    match p_string(s, i) {
        None => None,
        Some((k, j1)) => {
            let j2 = p_ws(s, j1);
            if j2 < s.len() && s[j2] == ':' {
                let j3 = p_ws(s, j2 + 1);
                match p_scalar(s, j3) {
                    None => None,
                    Some((v, j4)) => {
                        let j5 = p_ws(s, j4);
                        if j5 < s.len() && s[j5] == ',' {
                            let j6 = p_ws(s, j5 + 1);
                            if i < j6 {
                                match p_pairs(s, j6) {
                                    Some((rest, j7)) => {
                                        let mut out = rest;
                                        out.insert(0, (k, v));
                                        assert(pairs_view(out@) =~= seq![(k@, v@)] + pairs_view(
                                            rest@,
                                        ));
                                        Some((out, j7))
                                    },
                                    None => None,
                                }
                            } else {
                                None
                            }
                        } else {
                            let mut out: Vec<(Vec<char>, JsonScalar)> = Vec::new();
                            out.push((k, v));
                            assert(pairs_view(out@) =~= seq![(k@, v@)]);
                            Some((out, j4))
                        }
                    },
                }
            } else {
                None
            }
        },
    }
}

/// Read a whole `{ ... }` object of scalar pairs at `i`.
pub open spec fn sp_obj(s: Seq<char>, i: int) -> Option<(Seq<(Seq<char>, ScalarView)>, int)> {
    if 0 <= i && i < s.len() && s[i] == '{' {
        let j = sp_ws(s, i + 1);
        if j < s.len() && s[j] == '}' {
            Some((Seq::empty(), j + 1))
        } else {
            match sp_pairs(s, j) {
                Some((ps, j2)) => {
                    let j3 = sp_ws(s, j2);
                    if j3 < s.len() && s[j3] == '}' {
                        Some((ps, j3 + 1))
                    } else {
                        None
                    }
                },
                None => None,
            }
        }
    } else {
        None
    }
}

/// Read a whole object; mirrors `sp_obj`.
pub fn p_obj(s: &Vec<char>, i: usize) -> (r: Option<(Vec<(Vec<char>, JsonScalar)>, usize)>)
    requires
        i <= s@.len(),
    ensures
        match r {
            Some((v, j)) => sp_obj(s@, i as int) == Some((pairs_view(v@), j as int)) && j
                <= s@.len(),
            None => sp_obj(s@, i as int) is None,
        },
{
    if i < s.len() && s[i] == '{' {
        let j = p_ws(s, i + 1);
        if j < s.len() && s[j] == '}' {
            let out: Vec<(Vec<char>, JsonScalar)> = Vec::new();
            assert(pairs_view(out@) =~= Seq::<(Seq<char>, ScalarView)>::empty());
            Some((out, j + 1))
        } else {
            match p_pairs(s, j) {
                Some((ps, j2)) => {
                    let j3 = p_ws(s, j2);
                    if j3 < s.len() && s[j3] == '}' {
                        Some((ps, j3 + 1))
                    } else {
                        None
                    }
                },
                None => None,
            }
        }
    } else {
        None
    }
}

// ===== the escape round trip =====

proof fn lemma_hex_round(d: int)
    requires
        0 <= d < 16,
    ensures
        hex_val(hex_char(d)) == d,
{
}

/// Reading a string-literal body that was produced by escaping `x` yields
/// `x` again, wherever it stands in the input.
pub proof fn lemma_body_round(x: Seq<char>, pre: Seq<char>, post: Seq<char>, s: Seq<char>)
    requires
        s == pre + esc(x) + seq!['"'] + post,
    ensures
        sp_str_body(s, pre.len() as int) == Some(
            (x, pre.len() + esc(x).len() + 1int),
        ),
    decreases x.len(),
{
    let i = pre.len() as int;
    if x.len() == 0 {
        assert(esc(x) =~= Seq::<char>::empty());
        assert(s =~= pre + seq!['"'] + post);
        assert(s[i] == '"');
        assert(0 <= i < s.len());
    } else {
        let c = x[0];
        let x2 = x.skip(1);
        assert(esc(x) == esc_char(c) + esc(x2));
        let pre2 = pre + esc_char(c);
        assert(s =~= pre2 + esc(x2) + seq!['"'] + post);
        lemma_body_round(x2, pre2, post, s);
        assert(seq![c] + x2 =~= x);
        let ec = esc_char(c);
        assert(forall|k: int|
            0 <= k < ec.len() ==> s[i + k] == #[trigger] ec[k]) by {
            assert(forall|k: int|
                0 <= k < ec.len() ==> (pre + esc(x) + seq!['"'] + post)[i + k] == #[trigger] ec[k]);
        }
        if c == '"' || c == '\\' || c == '\n' || c == '\r' || c == '\t' {
            assert(ec.len() == 2);
            assert(s[i] == '\\');
            assert(i + 1 < s.len());
            let e = s[i + 1];
            assert(e != 'u');
            assert(unescape1(e) == Some(c));
            assert(pre2.len() == i + 2);
            assert(sp_str_body(s, i) == Some((x, i + esc(x).len() + 1)));
        } else if (c as u32) < 0x20 {
            assert(ec.len() == 6);
            assert(s[i] == '\\');
            assert(s[i + 1] == 'u');
            assert(s[i + 2] == '0');
            assert(s[i + 3] == '0');
            let hi = (c as u32) as int / 16;
            let lo = (c as u32) as int % 16;
            assert(s[i + 4] == hex_char(hi));
            assert(s[i + 5] == hex_char(lo));
            assert(i + 6 <= s.len());
            lemma_hex_round(hi);
            lemma_hex_round(lo);
            assert(hex_val(s[i + 2]) == 0);
            assert(hex_val(s[i + 3]) == 0);
            let code = hex_val(s[i + 2]) * 4096 + hex_val(s[i + 3]) * 256 + hex_val(s[i + 4]) * 16
                + hex_val(s[i + 5]);
            assert(code == (c as u32) as int);
            assert(code < 0xD800);
            vstd::utf8::char_u32_cast(c, code as u32);
            assert(((code as u32) as char) == c);
            assert(pre2.len() == i + 6);
            assert(sp_str_body(s, i) == Some((x, i + esc(x).len() + 1)));
        } else {
            assert(ec =~= seq![c]);
            assert(s[i] == c);
            assert(c != '"' && c != '\\' && (c as u32) >= 0x20);
            assert(pre2.len() == i + 1);
            assert(sp_str_body(s, i) == Some((x, i + esc(x).len() + 1)));
        }
    }
}

/// Reading a string literal that was produced by `jstr(x)` yields `x`.
pub proof fn lemma_str_round(x: Seq<char>, pre: Seq<char>, post: Seq<char>, s: Seq<char>)
    requires
        s == pre + jstr(x) + post,
    ensures
        sp_string(s, pre.len() as int) == Some((x, pre.len() + jstr(x).len() as int)),
{
    let i = pre.len() as int;
    assert(s =~= (pre + seq!['"']) + esc(x) + seq!['"'] + post);
    assert(s[i] == '"');
    lemma_body_round(x, pre + seq!['"'], post, s);
    assert((pre + seq!['"']).len() == i + 1);
}

} // verus!
