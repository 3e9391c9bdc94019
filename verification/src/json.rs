//! Minimal JSON encoding and parsing for the crate's structured payloads:
//! string escaping, decimal numbers, and flat objects. The encoders emit the
//! compact form (no whitespace); the parsers accept exactly that form, which
//! is what the round-trip laws are stated over.

use vstd::prelude::*;

use crate::strutil::dec_digits;
use crate::strutil::dec_int;
use crate::strutil::digit_char;

verus! {

// ---------------------------------------------------------------------------
// String escaping
// ---------------------------------------------------------------------------

/// Lower-case hexadecimal digit character.
pub open spec fn hex_digit(d: int) -> char
    recommends
        0 <= d < 16,
{
    if d < 10 {
        digit_char(d)
    } else if d == 10 {
        'a'
    } else if d == 11 {
        'b'
    } else if d == 12 {
        'c'
    } else if d == 13 {
        'd'
    } else if d == 14 {
        'e'
    } else {
        'f'
    }
}

/// The escape of one character inside a JSON string: quote and backslash get
/// a backslash, the common control characters their short forms, the other
/// control characters a `\u00XX` escape, and everything else stands as is.
pub open spec fn esc_char(c: char) -> Seq<char> {
    if c == '"' {
        seq!['\\', '"']
    } else if c == '\\' {
        seq!['\\', '\\']
    } else if c == '\n' {
        seq!['\\', 'n']
    } else if c == '\r' {
        seq!['\\', 'r']
    } else if c == '\t' {
        seq!['\\', 't']
    } else if (c as u32) < 0x20 {
        seq!['\\', 'u', '0', '0', hex_digit(c as u32 as int / 16), hex_digit(c as u32 as int % 16)]
    } else {
        seq![c]
    }
}

/// The escaped body of a JSON string.
pub open spec fn esc_seq(s: Seq<char>) -> Seq<char>
    decreases s.len(),
{
    if s.len() == 0 {
        Seq::empty()
    } else {
        esc_char(s[0]) + esc_seq(s.skip(1))
    }
}

/// A complete JSON string token: quote, escaped body, quote.
pub open spec fn json_string(s: Seq<char>) -> Seq<char> {
    seq!['"'] + esc_seq(s) + seq!['"']
}

pub proof fn lemma_esc_seq_push(s: Seq<char>, c: char)
    ensures
        esc_seq(s.push(c)) == esc_seq(s) + esc_char(c),
    decreases s.len(),
{
    if s.len() == 0 {
        assert(s.push(c)[0] == c);
        assert(s.push(c).skip(1) =~= s);
        assert(esc_seq(s.push(c)) =~= esc_seq(s) + esc_char(c));
    } else {
        assert(s.push(c)[0] == s[0]);
        assert(s.push(c).skip(1) =~= s.skip(1).push(c));
        lemma_esc_seq_push(s.skip(1), c);
        assert(esc_seq(s.push(c)) =~= esc_seq(s) + esc_char(c));
    }
}

/// Lower-case hexadecimal digit as a one-character string.
fn hex_str(d: u32) -> (r: &'static str)
    requires
        d < 16,
    ensures
        r@ == seq![hex_digit(d as int)],
{
    proof {
        reveal_strlit("0");
        reveal_strlit("1");
        reveal_strlit("2");
        reveal_strlit("3");
        reveal_strlit("4");
        reveal_strlit("5");
        reveal_strlit("6");
        reveal_strlit("7");
        reveal_strlit("8");
        reveal_strlit("9");
        reveal_strlit("a");
        reveal_strlit("b");
        reveal_strlit("c");
        reveal_strlit("d");
        reveal_strlit("e");
        reveal_strlit("f");
    }
    let r: &'static str = if d == 0 {
        "0"
    } else if d == 1 {
        "1"
    } else if d == 2 {
        "2"
    } else if d == 3 {
        "3"
    } else if d == 4 {
        "4"
    } else if d == 5 {
        "5"
    } else if d == 6 {
        "6"
    } else if d == 7 {
        "7"
    } else if d == 8 {
        "8"
    } else if d == 9 {
        "9"
    } else if d == 10 {
        "a"
    } else if d == 11 {
        "b"
    } else if d == 12 {
        "c"
    } else if d == 13 {
        "d"
    } else if d == 14 {
        "e"
    } else {
        "f"
    };
    proof {
        assert(r@ =~= seq![hex_digit(d as int)]);
    }
    r
}

/// Append the complete JSON string token for `s` to `out`.
pub fn push_json_string(out: &mut String, s: &str)
    ensures
        final(out)@ == old(out)@ + json_string(s@),
{
    proof {
        reveal_strlit("\"");
    }
    out.append("\"");
    let len = s.unicode_len();
    let mut i: usize = 0;
    while i < len
        invariant
            len == s@.len(),
            0 <= i <= len,
            out@ == old(out)@ + seq!['"'] + esc_seq(s@.subrange(0, i as int)),
        decreases len - i,
    {
        let c = s.get_char(i);
        proof {
            reveal_strlit("\\\"");
            reveal_strlit("\\\\");
            reveal_strlit("\\n");
            reveal_strlit("\\r");
            reveal_strlit("\\t");
            reveal_strlit("\\u00");
            assert(s@.subrange(0, i as int).push(c) =~= s@.subrange(0, i + 1));
            lemma_esc_seq_push(s@.subrange(0, i as int), c);
        }
        if c == '"' {
            out.append("\\\"");
            proof {
                assert("\\\""@ =~= esc_char('"'));
            }
        } else if c == '\\' {
            out.append("\\\\");
            proof {
                assert("\\\\"@ =~= esc_char('\\'));
            }
        } else if c == '\n' {
            out.append("\\n");
            proof {
                assert("\\n"@ =~= esc_char('\n'));
            }
        } else if c == '\r' {
            out.append("\\r");
            proof {
                assert("\\r"@ =~= esc_char('\r'));
            }
        } else if c == '\t' {
            out.append("\\t");
            proof {
                assert("\\t"@ =~= esc_char('\t'));
            }
        } else if (c as u32) < 0x20 {
            out.append("\\u00");
            out.append(hex_str((c as u32) / 16));
            out.append(hex_str((c as u32) % 16));
            proof {
                assert("\\u00"@ + seq![hex_digit(c as u32 as int / 16)] + seq![
                    hex_digit(c as u32 as int % 16),
                ] =~= esc_char(c));
            }
        } else {
            let piece = s.substring_char(i, i + 1);
            out.append(piece);
            proof {
                assert(piece@ =~= esc_char(c));
            }
        }
        proof {
            assert(out@ =~= old(out)@ + seq!['"'] + esc_seq(s@.subrange(0, i + 1)));
        }
        i += 1;
    }
    proof {
        reveal_strlit("\"");
        assert(s@.subrange(0, len as int) =~= s@);
    }
    out.append("\"");
    proof {
        assert(final(out)@ =~= old(out)@ + json_string(s@));
    }
}

// ---------------------------------------------------------------------------
// String parsing
// ---------------------------------------------------------------------------

pub open spec fn is_hex(c: char) -> bool {
    (48 <= c as u32 && c as u32 <= 57) || (97 <= c as u32 && c as u32 <= 102)
}

pub open spec fn hex_val(c: char) -> int {
    if c as u32 <= 57 {
        c as u32 - 48
    } else {
        c as u32 - 87
    }
}

/// The decoding of one escape or plain character at the head of `s`, as
/// `(character, characters consumed)`. `None` when the head is malformed:
/// a raw control character, a bad escape, a `\u` escape that is not ASCII,
/// or a `\u` escape that the encoder would have written another way.
pub open spec fn sp_head_char(s: Seq<char>) -> Option<(char, int)> {
    if s.len() == 0 || s[0] == '"' {
        None
    } else if s[0] == '\\' {
        if s.len() < 2 {
            None
        } else if s[1] == '"' {
            Some(('"', 2))
        } else if s[1] == '\\' {
            Some(('\\', 2))
        } else if s[1] == '/' {
            Some(('/', 2))
        } else if s[1] == 'n' {
            Some(('\n', 2))
        } else if s[1] == 'r' {
            Some(('\r', 2))
        } else if s[1] == 't' {
            Some(('\t', 2))
        } else if s[1] == 'u' {
            if s.len() >= 6 && is_hex(s[2]) && is_hex(s[3]) && is_hex(s[4]) && is_hex(s[5]) {
                let code = hex_val(s[2]) * 4096 + hex_val(s[3]) * 256 + hex_val(s[4]) * 16
                    + hex_val(s[5]);
                if code < 0x20 && code != 0x0a && code != 0x0d && code != 0x09 {
                    Some(((code as u8) as char, 6))
                } else {
                    None
                }
            } else {
                None
            }
        } else {
            None
        }
    } else if (s[0] as u32) < 0x20 {
        None
    } else {
        Some((s[0], 1))
    }
}

/// Parse the body of a JSON string after the opening quote, up to and
/// including the closing quote. Returns the decoded text and the number of
/// characters consumed.
pub open spec fn sp_string_body(s: Seq<char>) -> Option<(Seq<char>, int)>
    decreases s.len(),
{
    if s.len() == 0 {
        None
    } else if s[0] == '"' {
        Some((Seq::empty(), 1))
    } else {
        match sp_head_char(s) {
            None => None,
            Some((c, k)) => {
                if 1 <= k <= s.len() {
                    match sp_string_body(s.skip(k)) {
                        None => None,
                        Some((t, n)) => Some((seq![c] + t, k + n)),
                    }
                } else {
                    None
                }
            },
        }
    }
}

/// The head parser inverts the escape of a single character, whatever
/// follows it.
proof fn lemma_head_esc(c: char, rest: Seq<char>)
    ensures
        sp_head_char(esc_char(c) + rest) == Some::<(char, int)>((c, esc_char(c).len() as int)),
{
    let e = esc_char(c);
    let s = e + rest;
    assert(forall|j: int| 0 <= j < e.len() ==> s[j] == e[j]);
    if c == '"' || c == '\\' || c == '\n' || c == '\r' || c == '\t' {
        assert(s[0] == '\\');
        assert(sp_head_char(s) == Some::<(char, int)>((c, 2)));
    } else if (c as u32) < 0x20 {
        assert(s[0] == '\\' && s[1] == 'u' && s[2] == '0' && s[3] == '0');
        let code = c as u32 as int;
        let hi = code / 16;
        let lo = code % 16;
        assert(0 <= hi < 16 && 0 <= lo < 16);
        assert(s[4] == hex_digit(hi) && s[5] == hex_digit(lo));
        lemma_hex_digit_val(hi);
        lemma_hex_digit_val(lo);
        assert(hex_val('0') == 0);
        assert(hex_val(s[2]) * 4096 + hex_val(s[3]) * 256 + hex_val(s[4]) * 16 + hex_val(s[5])
            == code);
        assert(code != 0x0a && code != 0x0d && code != 0x09);
        let b = code as u8;
        assert(b as u32 == c as u32);
        vstd::utf8::char_u32_cast(c, b as u32);
        assert((b as char) == c);
        assert(sp_head_char(s) == Some::<(char, int)>((c, 6)));
    } else {
        assert(s[0] == c);
        assert(sp_head_char(s) == Some::<(char, int)>((c, 1)));
    }
}

/// Law: parsing inverts escaping. The parser applied to an escaped body, its
/// closing quote and any tail returns exactly the original text, consuming
/// the escaped body and the quote.
pub proof fn lemma_string_roundtrip(t: Seq<char>, rest: Seq<char>)
    ensures
        sp_string_body(esc_seq(t) + seq!['"'] + rest) == Some::<(Seq<char>, int)>(
            (t, esc_seq(t).len() as int + 1),
        ),
    decreases t.len(),
{
    let s = esc_seq(t) + seq!['"'] + rest;
    if t.len() == 0 {
        assert(s[0] == '"');
        assert(sp_string_body(s) == Some::<(Seq<char>, int)>((Seq::empty(), 1)));
        assert(t =~= Seq::<char>::empty());
    } else {
        let c = t[0];
        let e = esc_char(c);
        assert(esc_seq(t) =~= e + esc_seq(t.skip(1)));
        let tail = esc_seq(t.skip(1)) + seq!['"'] + rest;
        assert(s =~= e + tail);
        lemma_head_esc(c, tail);
        assert(sp_head_char(s) == Some::<(char, int)>((c, e.len() as int)));
        assert(e.len() >= 1);
        assert(s[0] != '"') by {
            assert(s[0] == e[0]);
            if c == '"' {
                assert(e[0] == '\\');
            }
        }
        assert(s.skip(e.len() as int) =~= tail);
        lemma_string_roundtrip(t.skip(1), rest);
        assert(seq![c] + t.skip(1) =~= t);
        assert(sp_string_body(s) == Some::<(Seq<char>, int)>((t, esc_seq(t).len() as int + 1)));
    }
}

proof fn lemma_hex_digit_val(d: int)
    requires
        0 <= d < 16,
    ensures
        is_hex(hex_digit(d)),
        hex_val(hex_digit(d)) == d,
{
}

/// Decode a control character (below 0x20) into a one-character string.
fn control_char_str(b: u8) -> (r: &'static str)
    requires
        b < 0x20,
    ensures
        r@ == seq![(b as char)],
{
    proof {
        reveal_strlit("\u{0}");
        reveal_strlit("\u{1}");
        reveal_strlit("\u{2}");
        reveal_strlit("\u{3}");
        reveal_strlit("\u{4}");
        reveal_strlit("\u{5}");
        reveal_strlit("\u{6}");
        reveal_strlit("\u{7}");
        reveal_strlit("\u{8}");
        reveal_strlit("\u{9}");
        reveal_strlit("\u{a}");
        reveal_strlit("\u{b}");
        reveal_strlit("\u{c}");
        reveal_strlit("\u{d}");
        reveal_strlit("\u{e}");
        reveal_strlit("\u{f}");
        reveal_strlit("\u{10}");
        reveal_strlit("\u{11}");
        reveal_strlit("\u{12}");
        reveal_strlit("\u{13}");
        reveal_strlit("\u{14}");
        reveal_strlit("\u{15}");
        reveal_strlit("\u{16}");
        reveal_strlit("\u{17}");
        reveal_strlit("\u{18}");
        reveal_strlit("\u{19}");
        reveal_strlit("\u{1a}");
        reveal_strlit("\u{1b}");
        reveal_strlit("\u{1c}");
        reveal_strlit("\u{1d}");
        reveal_strlit("\u{1e}");
        reveal_strlit("\u{1f}");
    }
    let r: &'static str = if b == 0 {
        "\u{0}"
    } else if b == 1 {
        "\u{1}"
    } else if b == 2 {
        "\u{2}"
    } else if b == 3 {
        "\u{3}"
    } else if b == 4 {
        "\u{4}"
    } else if b == 5 {
        "\u{5}"
    } else if b == 6 {
        "\u{6}"
    } else if b == 7 {
        "\u{7}"
    } else if b == 8 {
        "\u{8}"
    } else if b == 9 {
        "\u{9}"
    } else if b == 10 {
        "\u{a}"
    } else if b == 11 {
        "\u{b}"
    } else if b == 12 {
        "\u{c}"
    } else if b == 13 {
        "\u{d}"
    } else if b == 14 {
        "\u{e}"
    } else if b == 15 {
        "\u{f}"
    } else if b == 16 {
        "\u{10}"
    } else if b == 17 {
        "\u{11}"
    } else if b == 18 {
        "\u{12}"
    } else if b == 19 {
        "\u{13}"
    } else if b == 20 {
        "\u{14}"
    } else if b == 21 {
        "\u{15}"
    } else if b == 22 {
        "\u{16}"
    } else if b == 23 {
        "\u{17}"
    } else if b == 24 {
        "\u{18}"
    } else if b == 25 {
        "\u{19}"
    } else if b == 26 {
        "\u{1a}"
    } else if b == 27 {
        "\u{1b}"
    } else if b == 28 {
        "\u{1c}"
    } else if b == 29 {
        "\u{1d}"
    } else if b == 30 {
        "\u{1e}"
    } else {
        "\u{1f}"
    };
    proof {
        assert(r@ =~= seq![(b as char)]);
    }
    r
}

/// Parse the body of a JSON string in `s` starting right after the opening
/// quote at position `pos`; mirror of [`sp_string_body`].
pub fn parse_string_body(s: &str, s_len: usize, pos: usize) -> (r: Option<(String, usize)>)
    requires
        s_len == s@.len(),
        pos <= s_len,
    ensures
        match r {
            Some((t, n)) => sp_string_body(s@.skip(pos as int)) == Some::<(Seq<char>, int)>(
                (t@, n as int),
            ) && pos + n <= s_len && n >= 1,
            None => (sp_string_body(s@.skip(pos as int)) is None),
        },
    decreases s_len - pos,
{
    let ghost tail = s@.skip(pos as int);
    if pos == s_len {
        return None;
    }
    let c = s.get_char(pos);
    proof {
        assert(tail[0] == c);
        assert(tail.len() == s_len - pos);
    }
    if c == '"' {
        let r = String::new();
        proof {
            assert(r@ =~= Seq::<char>::empty());
        }
        return Some((r, 1));
    }
    // Decode the head character and how much it consumes.
    let head: Option<(String, usize)> = if c == '\\' {
        if pos + 1 == s_len {
            None
        } else {
            let e = s.get_char(pos + 1);
            proof {
                assert(tail[1] == e);
            }
            if e == '"' {
                Some(("\"".to_owned(), 2))
            } else if e == '\\' {
                Some(("\\".to_owned(), 2))
            } else if e == '/' {
                Some(("/".to_owned(), 2))
            } else if e == 'n' {
                Some(("\n".to_owned(), 2))
            } else if e == 'r' {
                Some(("\r".to_owned(), 2))
            } else if e == 't' {
                Some(("\t".to_owned(), 2))
            } else if e == 'u' {
                if s_len - pos > 5 {
                    let h2 = s.get_char(pos + 2);
                    let h3 = s.get_char(pos + 3);
                    let h4 = s.get_char(pos + 4);
                    let h5 = s.get_char(pos + 5);
                    proof {
                        assert(tail[2] == h2 && tail[3] == h3 && tail[4] == h4 && tail[5] == h5);
                    }
                    match (hex_char_val(h2), hex_char_val(h3), hex_char_val(h4), hex_char_val(
                        h5,
                    )) {
                        (Some(v2), Some(v3), Some(v4), Some(v5)) => {
                            let code: u32 = (v2 as u32) * 4096 + (v3 as u32) * 256 + (v4 as u32)
                                * 16 + (v5 as u32);
                            if code < 0x20 && code != 0x0a && code != 0x0d && code != 0x09 {
                                Some((control_char_str(code as u8).to_owned(), 6))
                            } else {
                                None
                            }
                        },
                        _ => None,
                    }
                } else {
                    None
                }
            } else {
                None
            }
        }
    } else if (c as u32) < 0x20 {
        None
    } else {
        Some((s.substring_char(pos, pos + 1).to_owned(), 1))
    };
    proof {
        reveal_strlit("\"");
        reveal_strlit("\\");
        reveal_strlit("/");
        reveal_strlit("\n");
        reveal_strlit("\r");
        reveal_strlit("\t");
        match &head {
            Some(hk) => {
                assert(sp_head_char(tail) matches Some(p) && hk.0@ == seq![p.0] && hk.1 == p.1);
            },
            None => {
                assert(sp_head_char(tail) is None);
            },
        }
    }
    match head {
        None => None,
        Some((h, k)) => {
            match parse_string_body(s, s_len, pos + k) {
                None => {
                    proof {
                        assert(tail.skip(k as int) =~= s@.skip(pos + k));
                    }
                    None
                },
                Some((t, n)) => {
                    let mut r = h;
                    r.append(t.as_str());
                    proof {
                        assert(tail.skip(k as int) =~= s@.skip(pos + k));
                        assert(r@ =~= seq![sp_head_char(tail)->Some_0.0] + t@);
                    }
                    Some((r, k + n))
                },
            }
        },
    }
}

/// The numeric value of a hexadecimal digit character, lower case only.
fn hex_char_val(c: char) -> (r: Option<u8>)
    ensures
        match r {
            Some(v) => is_hex(c) && v == hex_val(c) && v < 16,
            None => !is_hex(c),
        },
{
    let u = c as u32;
    if 48 <= u && u <= 57 {
        Some((u - 48) as u8)
    } else if 97 <= u && u <= 102 {
        Some((u - 87) as u8)
    } else {
        None
    }
}


// ---------------------------------------------------------------------------
// Numbers
// ---------------------------------------------------------------------------

pub open spec fn is_dec_digit(c: char) -> bool {
    48 <= c as u32 && c as u32 <= 57
}

pub open spec fn digit_val(c: char) -> int {
    c as u32 - 48
}

/// Length of the run of decimal digits at the head of `s`.
pub open spec fn digit_run(s: Seq<char>) -> int
    decreases s.len(),
{
    if s.len() == 0 || !is_dec_digit(s[0]) {
        0
    } else {
        1 + digit_run(s.skip(1))
    }
}

/// The value of a sequence of decimal digits, most significant first.
pub open spec fn val_of_digits(ds: Seq<char>) -> int
    decreases ds.len(),
{
    if ds.len() == 0 {
        0
    } else {
        val_of_digits(ds.drop_last()) * 10 + digit_val(ds.last())
    }
}

pub open spec fn pow10(k: nat) -> int
    decreases k,
{
    if k == 0 {
        1
    } else {
        10 * pow10((k - 1) as nat)
    }
}

/// An unsigned decimal token: the value and length of the digit run at the
/// head of `s`. At most 19 digits, so the value fits a `u64`.
pub open spec fn sp_u64(s: Seq<char>) -> Option<(int, int)> {
    let n = digit_run(s);
    if n == 0 || n > 19 {
        None
    } else {
        Some((val_of_digits(s.subrange(0, n)), n))
    }
}

/// A signed decimal token, bounded to the `i64` range.
pub open spec fn sp_i64(s: Seq<char>) -> Option<(int, int)> {
    if s.len() > 0 && s[0] == '-' {
        match sp_u64(s.skip(1)) {
            None => None,
            Some((v, n)) => if -v >= i64::MIN {
                Some((-v, n + 1))
            } else {
                None
            },
        }
    } else {
        match sp_u64(s) {
            None => None,
            Some((v, n)) => if v <= i64::MAX {
                Some((v, n))
            } else {
                None
            },
        }
    }
}

proof fn lemma_pow10_19()
    ensures
        pow10(19) == 10_000_000_000_000_000_000,
{
    assert(pow10(0) == 1);
    assert(pow10(1) == 10);
    assert(pow10(2) == 100);
    assert(pow10(3) == 1000);
    assert(pow10(4) == 10000);
    assert(pow10(5) == 100000);
    assert(pow10(6) == 1000000);
    assert(pow10(7) == 10000000);
    assert(pow10(8) == 100000000);
    assert(pow10(9) == 1000000000);
    assert(pow10(10) == 10000000000);
    assert(pow10(11) == 100000000000);
    assert(pow10(12) == 1000000000000);
    assert(pow10(13) == 10000000000000);
    assert(pow10(14) == 100000000000000);
    assert(pow10(15) == 1000000000000000);
    assert(pow10(16) == 10000000000000000);
    assert(pow10(17) == 100000000000000000);
    assert(pow10(18) == 1000000000000000000);
    assert(pow10(19) == 10000000000000000000);
}

proof fn lemma_val_of_digits_bounds(ds: Seq<char>)
    requires
        forall|i: int| 0 <= i < ds.len() ==> is_dec_digit(#[trigger] ds[i]),
    ensures
        0 <= val_of_digits(ds) < pow10(ds.len() as nat),
    decreases ds.len(),
{
    if ds.len() == 0 {
    } else {
        let head = ds.drop_last();
        lemma_val_of_digits_bounds(head);
        assert(is_dec_digit(ds.last()));
        assert(0 <= digit_val(ds.last()) <= 9);
        assert(val_of_digits(head) * 10 + digit_val(ds.last()) < pow10(ds.len() as nat)) by (nonlinear_arith)
            requires
                0 <= val_of_digits(head) < pow10(head.len() as nat),
                0 <= digit_val(ds.last()) <= 9,
                pow10(ds.len() as nat) == 10 * pow10(head.len() as nat),
        ;
    }
}

/// The digit run is the position of the first non-digit.
proof fn lemma_digit_run_unique(s: Seq<char>, n: int)
    requires
        0 <= n <= s.len(),
        forall|k: int| 0 <= k < n ==> is_dec_digit(#[trigger] s[k]),
        n < s.len() ==> !is_dec_digit(s[n]),
    ensures
        digit_run(s) == n,
    decreases s.len(),
{
    if s.len() == 0 {
    } else if !is_dec_digit(s[0]) {
        assert(n == 0);
    } else {
        let t = s.skip(1);
        assert(n >= 1);
        assert(forall|k: int| 0 <= k < n - 1 ==> t[k] == s[k + 1] && is_dec_digit(#[trigger] t[k]));
        if n - 1 < t.len() {
            assert(t[n - 1] == s[n]);
        }
        lemma_digit_run_unique(t, n - 1);
    }
}

proof fn lemma_dec_digits_are_digits(n: nat)
    ensures
        forall|i: int|
            0 <= i < dec_digits(n).len() ==> is_dec_digit(#[trigger] dec_digits(n)[i]),
        dec_digits(n).len() >= 1,
    decreases n,
{
    if n < 10 {
        assert(is_dec_digit(digit_char(n as int)));
    } else {
        lemma_dec_digits_are_digits(n / 10);
        assert(is_dec_digit(digit_char((n % 10) as int)));
        assert(forall|i: int|
            0 <= i < dec_digits(n).len() ==> is_dec_digit(#[trigger] dec_digits(n)[i])) by {
            assert(dec_digits(n) == dec_digits(n / 10) + seq![digit_char((n % 10) as int)]);
            assert forall|i: int|
                0 <= i < dec_digits(n).len() implies is_dec_digit(#[trigger] dec_digits(n)[i]) by {
                if i < dec_digits(n / 10).len() {
                    assert(dec_digits(n)[i] == dec_digits(n / 10)[i]);
                } else {
                    assert(dec_digits(n)[i] == digit_char((n % 10) as int));
                }
            }
        }
    }
}

proof fn lemma_val_of_dec_digits(n: nat)
    ensures
        val_of_digits(dec_digits(n)) == n,
    decreases n,
{
    if n < 10 {
        let ds = dec_digits(n);
        assert(ds == seq![digit_char(n as int)]);
        assert(ds.drop_last() =~= Seq::<char>::empty());
        assert(val_of_digits(Seq::<char>::empty()) == 0);
        assert(digit_val(digit_char(n as int)) == n);
        assert(val_of_digits(ds) == n);
    } else {
        lemma_val_of_dec_digits(n / 10);
        let ds = dec_digits(n);
        assert(ds == dec_digits(n / 10) + seq![digit_char((n % 10) as int)]);
        assert(ds.drop_last() =~= dec_digits(n / 10));
        assert(ds.last() == digit_char((n % 10) as int));
        assert(digit_val(digit_char((n % 10) as int)) == n % 10);
        assert(val_of_digits(ds) == (n / 10) * 10 + n % 10);
        assert((n / 10) * 10 + n % 10 == n) by (nonlinear_arith)
            requires
                n >= 0,
        ;
    }
}

proof fn lemma_dec_digits_len(n: nat, k: nat)
    requires
        k >= 1,
        n < pow10(k),
    ensures
        dec_digits(n).len() <= k,
    decreases k,
{
    if n < 10 {
    } else {
        assert(pow10(k) == 10 * pow10((k - 1) as nat));
        assert(k >= 2) by {
            if k == 1 {
                assert(pow10(1nat) == 10);
            }
        }
        assert(n / 10 < pow10((k - 1) as nat)) by (nonlinear_arith)
            requires
                n >= 10,
                n < 10 * pow10((k - 1) as nat),
        ;
        lemma_dec_digits_len(n / 10, (k - 1) as nat);
    }
}

/// Law: parsing inverts decimal rendering, for values of at most 19 digits,
/// whatever non-digit tail follows.
pub proof fn lemma_u64_roundtrip(n: u64, rest: Seq<char>)
    requires
        (n as int) < pow10(19),
        rest.len() > 0 ==> !is_dec_digit(rest[0]),
    ensures
        sp_u64(dec_digits(n as nat) + rest) == Some::<(int, int)>(
            (n as int, dec_digits(n as nat).len() as int),
        ),
{
    let ds = dec_digits(n as nat);
    let s = ds + rest;
    lemma_dec_digits_are_digits(n as nat);
    lemma_dec_digits_len(n as nat, 19);
    assert(forall|k: int| 0 <= k < ds.len() ==> is_dec_digit(#[trigger] s[k]));
    if ds.len() < s.len() {
        assert(s[ds.len() as int] == rest[0]);
    }
    lemma_digit_run_unique(s, ds.len() as int);
    assert(s.subrange(0, ds.len() as int) =~= ds);
    lemma_val_of_dec_digits(n as nat);
}

/// Whether the character at position `i` is a decimal digit.
fn digit_at(s: &str, s_len: usize, i: usize) -> (b: bool)
    requires
        s_len == s@.len(),
        i < s_len,
    ensures
        b == is_dec_digit(s@[i as int]),
{
    let u = s.get_char(i) as u32;
    48 <= u && u <= 57
}

/// Parse an unsigned decimal token at `pos`; mirror of [`sp_u64`].
pub fn parse_u64_at(s: &str, s_len: usize, pos: usize) -> (r: Option<(u64, usize)>)
    requires
        s_len == s@.len(),
        pos <= s_len,
    ensures
        match r {
            Some((v, n)) => sp_u64(s@.skip(pos as int)) == Some::<(int, int)>(
                (v as int, n as int),
            ) && pos + n <= s_len && n >= 1,
            None => (sp_u64(s@.skip(pos as int)) is None),
        },
{
    let ghost tail = s@.skip(pos as int);
    proof {
        lemma_pow10_19();
    }
    let mut i: usize = pos;
    let mut acc: u64 = 0;
    while i < s_len && digit_at(s, s_len, i)
        invariant
            s_len == s@.len(),
            pos <= i <= s_len,
            i - pos <= 19,
            tail == s@.skip(pos as int),
            forall|k: int| 0 <= k < i - pos ==> is_dec_digit(#[trigger] tail[k]),
            acc == val_of_digits(tail.subrange(0, i - pos)),
            acc < pow10((i - pos) as nat),
            pow10(19) == 10_000_000_000_000_000_000,
        decreases s_len - i,
    {
        let c = s.get_char(i);
        proof {
            assert(tail[i - pos] == s@[i as int]);
            assert(is_dec_digit(c));
        }
        if i - pos == 19 {
            // Twenty digits or more: the token is out of range.
            proof {
                lemma_digit_run_ge(tail, 20);
            }
            return None;
        }
        let d: u64 = (c as u32 - 48) as u64;
        proof {
            assert(pow10(((i - pos) + 1) as nat) == 10 * pow10((i - pos) as nat));
            assert(acc * 10 + d < pow10(((i - pos) + 1) as nat)) by (nonlinear_arith)
                requires
                    0 <= acc < pow10((i - pos) as nat),
                    0 <= d <= 9,
                    pow10(((i - pos) + 1) as nat) == 10 * pow10((i - pos) as nat),
            ;
            assert(pow10(((i - pos) + 1) as nat) <= pow10(19)) by {
                lemma_pow10_monotone(((i - pos) + 1) as nat, 19);
            }
            assert(tail.subrange(0, i - pos).push(c) =~= tail.subrange(0, i + 1 - pos));
            assert(tail.subrange(0, i + 1 - pos).drop_last() =~= tail.subrange(0, i - pos));
        }
        acc = acc * 10 + d;
        i += 1;
    }
    proof {
        if i < s_len {
            assert(tail[i - pos] == s@[i as int]);
            assert(!is_dec_digit(tail[i - pos]));
        }
        lemma_digit_run_unique(tail, i - pos);
    }
    if i == pos {
        return None;
    }
    Some((acc, i - pos))
}

proof fn lemma_pow10_monotone(a: nat, b: nat)
    requires
        a <= b,
    ensures
        pow10(a) <= pow10(b),
    decreases b,
{
    if a < b {
        lemma_pow10_monotone(a, (b - 1) as nat);
        assert(pow10(b) == 10 * pow10((b - 1) as nat));
        assert(pow10((b - 1) as nat) >= 1) by {
            lemma_pow10_pos((b - 1) as nat);
        }
    }
}

proof fn lemma_pow10_pos(k: nat)
    ensures
        pow10(k) >= 1,
    decreases k,
{
    if k > 0 {
        lemma_pow10_pos((k - 1) as nat);
    }
}

proof fn lemma_digit_run_nonneg(s: Seq<char>)
    ensures
        digit_run(s) >= 0,
    decreases s.len(),
{
    if s.len() > 0 && is_dec_digit(s[0]) {
        lemma_digit_run_nonneg(s.skip(1));
    }
}

/// If the first `n` characters are digits, the digit run is at least `n`.
proof fn lemma_digit_run_ge(s: Seq<char>, n: int)
    requires
        0 <= n <= s.len(),
        forall|k: int| 0 <= k < n ==> is_dec_digit(#[trigger] s[k]),
    ensures
        digit_run(s) >= n,
    decreases n,
{
    lemma_digit_run_nonneg(s);
    if n > 0 {
        assert(is_dec_digit(s[0]));
        let t = s.skip(1);
        assert(forall|k: int| 0 <= k < n - 1 ==> t[k] == s[k + 1] && is_dec_digit(#[trigger] t[k]));
        lemma_digit_run_ge(t, n - 1);
        assert(digit_run(s) == 1 + digit_run(t));
    }
}

/// Parse a signed decimal token at `pos`; mirror of [`sp_i64`].
pub fn parse_i64_at(s: &str, s_len: usize, pos: usize) -> (r: Option<(i64, usize)>)
    requires
        s_len == s@.len(),
        pos <= s_len,
    ensures
        match r {
            Some((v, n)) => sp_i64(s@.skip(pos as int)) == Some::<(int, int)>(
                (v as int, n as int),
            ) && pos + n <= s_len && n >= 1,
            None => sp_i64(s@.skip(pos as int)) is None,
        },
{
    let ghost tail = s@.skip(pos as int);
    if pos < s_len && s.get_char(pos) == '-' {
        proof {
            assert(tail[0] == '-');
            assert(!is_dec_digit('-'));
            assert(tail.skip(1) =~= s@.skip(pos + 1));
        }
        match parse_u64_at(s, s_len, pos + 1) {
            None => None,
            Some((v, n)) => {
                if v <= 9_223_372_036_854_775_807u64 {
                    let neg: i64 = -(v as i64);
                    Some((neg, n + 1))
                } else if v == 9_223_372_036_854_775_808u64 {
                    Some((i64::MIN, n + 1))
                } else {
                    None
                }
            },
        }
    } else {
        proof {
            if tail.len() > 0 {
                assert(tail[0] == s@[pos as int]);
            }
        }
        match parse_u64_at(s, s_len, pos) {
            None => None,
            Some((v, n)) => {
                if v <= 9_223_372_036_854_775_807u64 {
                    Some((v as i64, n))
                } else {
                    None
                }
            },
        }
    }
}

// ---------------------------------------------------------------------------
// Values and flat objects
// ---------------------------------------------------------------------------

/// A leaf JSON value at the specification level.
pub enum SpecJson {
    SStr(Seq<char>),
    SInt(int),
    SBool(bool),
    SNull,
}

/// A leaf JSON value: a string, a 64-bit integer, a boolean or null.
pub enum JVal {
    JStr(String),
    JInt(i64),
    JBool(bool),
    JNull,
}

impl View for JVal {
    type V = SpecJson;

    open spec fn view(&self) -> SpecJson {
        match self {
            JVal::JStr(s) => SpecJson::SStr(s@),
            JVal::JInt(i) => SpecJson::SInt(*i as int),
            JVal::JBool(b) => SpecJson::SBool(*b),
            JVal::JNull => SpecJson::SNull,
        }
    }
}

/// Parse one leaf value at the head of `s`: a string, an integer, `true`,
/// `false` or `null`. Anything else, nested objects and arrays included,
/// is rejected.
pub open spec fn sp_value(s: Seq<char>) -> Option<(SpecJson, int)> {
    if s.len() == 0 {
        None
    } else if s[0] == '"' {
        match sp_string_body(s.skip(1)) {
            None => None,
            Some((t, n)) => Some((SpecJson::SStr(t), 1 + n)),
        }
    } else if s[0] == '-' || is_dec_digit(s[0]) {
        match sp_i64(s) {
            None => None,
            Some((v, n)) => Some((SpecJson::SInt(v), n)),
        }
    } else if s.len() >= 4 && s.subrange(0, 4) == seq!['t', 'r', 'u', 'e'] {
        Some((SpecJson::SBool(true), 4))
    } else if s.len() >= 5 && s.subrange(0, 5) == seq!['f', 'a', 'l', 's', 'e'] {
        Some((SpecJson::SBool(false), 5))
    } else if s.len() >= 4 && s.subrange(0, 4) == seq!['n', 'u', 'l', 'l'] {
        Some((SpecJson::SNull, 4))
    } else {
        None
    }
}

/// Parse the members of a flat object after its opening brace: a sequence of
/// `"key":value` pairs separated by commas, up to and including the closing
/// brace. Compact form only: no whitespace anywhere.
pub open spec fn sp_members(s: Seq<char>) -> Option<(Seq<(Seq<char>, SpecJson)>, int)>
    decreases s.len(),
{
    if s.len() == 0 || s[0] != '"' {
        None
    } else {
        match sp_string_body(s.skip(1)) {
            None => None,
            Some((key, kn)) => {
                if kn < 1 || 1 + kn >= s.len() || s[1 + kn] != ':' {
                    None
                } else {
                    match sp_value(s.skip(2 + kn)) {
                        None => None,
                        Some((v, vn)) => {
                            if vn < 1 || 2 + kn + vn >= s.len() {
                                None
                            } else if s[2 + kn + vn] == '}' {
                                Some((seq![(key, v)], 3 + kn + vn))
                            } else if s[2 + kn + vn] == ',' {
                                match sp_members(s.skip(3 + kn + vn)) {
                                    None => None,
                                    Some((ms, mn)) => Some(
                                        (seq![(key, v)] + ms, 3 + kn + vn + mn),
                                    ),
                                }
                            } else {
                                None
                            }
                        },
                    }
                }
            },
        }
    }
}

/// Parse a whole flat object: `{}` or `{` followed by members. The entire
/// input must be consumed.
pub open spec fn sp_flat_object(s: Seq<char>) -> Option<Seq<(Seq<char>, SpecJson)>> {
    if s.len() == 2 && s[0] == '{' && s[1] == '}' {
        Some(Seq::empty())
    } else if s.len() > 0 && s[0] == '{' {
        match sp_members(s.skip(1)) {
            None => None,
            Some((ms, n)) => if 1 + n == s.len() {
                Some(ms)
            } else {
                None
            },
        }
    } else {
        None
    }
}

/// The view of an association list of parsed members.
pub open spec fn assoc_view(v: Seq<(String, JVal)>) -> Seq<(Seq<char>, SpecJson)> {
    v.map_values(|p: (String, JVal)| (p.0@, p.1@))
}

/// The value under the first occurrence of `key`, if any.
pub open spec fn sp_lookup(ms: Seq<(Seq<char>, SpecJson)>, key: Seq<char>) -> Option<SpecJson>
    decreases ms.len(),
{
    if ms.len() == 0 {
        None
    } else if ms[0].0 == key {
        Some(ms[0].1)
    } else {
        sp_lookup(ms.skip(1), key)
    }
}

/// Parse one leaf value at `pos`; mirror of [`sp_value`].
fn parse_value_at(s: &str, s_len: usize, pos: usize) -> (r: Option<(JVal, usize)>)
    requires
        s_len == s@.len(),
        pos <= s_len,
    ensures
        match r {
            Some((v, n)) => sp_value(s@.skip(pos as int)) == Some::<(SpecJson, int)>(
                (v@, n as int),
            ) && pos + n <= s_len && n >= 1,
            None => sp_value(s@.skip(pos as int)) is None,
        },
{
    let ghost tail = s@.skip(pos as int);
    if pos == s_len {
        return None;
    }
    let c = s.get_char(pos);
    proof {
        assert(tail[0] == c);
    }
    if c == '"' {
        proof {
            assert(tail.skip(1) =~= s@.skip(pos + 1));
        }
        match parse_string_body(s, s_len, pos + 1) {
            None => None,
            Some((t, n)) => Some((JVal::JStr(t), 1 + n)),
        }
    } else if c == '-' || is_digit_char(c) {
        match parse_i64_at(s, s_len, pos) {
            None => None,
            Some((v, n)) => Some((JVal::JInt(v), n)),
        }
    } else if match_lit_at(s, s_len, pos, "true") {
        proof {
            reveal_strlit("true");
            assert(pos + 4 <= s_len && tail.len() >= 4);
            assert(tail[0] == s@[pos + 0] && tail[1] == s@[pos + 1] && tail[2] == s@[pos + 2]
                && tail[3] == s@[pos + 3]);
            lemma_prefix_char(s@, pos as int, "true"@, 0);
            lemma_prefix_char(s@, pos as int, "true"@, 1);
            lemma_prefix_char(s@, pos as int, "true"@, 2);
            lemma_prefix_char(s@, pos as int, "true"@, 3);
            assert(s@[pos + 0] == 't' && s@[pos + 1] == 'r' && s@[pos + 2] == 'u' && s@[pos + 3]
                == 'e');
            assert(tail.subrange(0, 4) =~= seq!['t', 'r', 'u', 'e']);
        }
        Some((JVal::JBool(true), 4))
    } else if match_lit_at(s, s_len, pos, "false") {
        proof {
            reveal_strlit("false");
            assert(pos + 5 <= s_len && tail.len() >= 5);
            assert(tail[0] == s@[pos + 0] && tail[1] == s@[pos + 1] && tail[2] == s@[pos + 2]
                && tail[3] == s@[pos + 3] && tail[4] == s@[pos + 4]);
            lemma_prefix_char(s@, pos as int, "false"@, 0);
            lemma_prefix_char(s@, pos as int, "false"@, 1);
            lemma_prefix_char(s@, pos as int, "false"@, 2);
            lemma_prefix_char(s@, pos as int, "false"@, 3);
            lemma_prefix_char(s@, pos as int, "false"@, 4);
            assert(s@[pos + 0] == 'f' && s@[pos + 1] == 'a' && s@[pos + 2] == 'l' && s@[pos + 3]
                == 's' && s@[pos + 4] == 'e');
            assert(tail.subrange(0, 5) =~= seq!['f', 'a', 'l', 's', 'e']);
            assert(tail[0] != '"' && tail[0] != '-' && !is_dec_digit(tail[0]));
            assert(!(tail.len() >= 4 && tail.subrange(0, 4) == seq!['t', 'r', 'u', 'e'])) by {
                assert(tail[0] == 'f');
            }
        }
        Some((JVal::JBool(false), 5))
    } else if match_lit_at(s, s_len, pos, "null") {
        proof {
            reveal_strlit("null");
            assert(pos + 4 <= s_len && tail.len() >= 4);
            assert(tail[0] == s@[pos + 0] && tail[1] == s@[pos + 1] && tail[2] == s@[pos + 2]
                && tail[3] == s@[pos + 3]);
            lemma_prefix_char(s@, pos as int, "null"@, 0);
            lemma_prefix_char(s@, pos as int, "null"@, 1);
            lemma_prefix_char(s@, pos as int, "null"@, 2);
            lemma_prefix_char(s@, pos as int, "null"@, 3);
            assert(s@[pos + 0] == 'n' && s@[pos + 1] == 'u' && s@[pos + 2] == 'l' && s@[pos + 3]
                == 'l');
            assert(tail.subrange(0, 4) =~= seq!['n', 'u', 'l', 'l']);
            assert(!(tail.len() >= 4 && tail.subrange(0, 4) == seq!['t', 'r', 'u', 'e'])) by {
                assert(tail[0] == 'n');
            }
            assert(!(tail.len() >= 5 && tail.subrange(0, 5) == seq!['f', 'a', 'l', 's', 'e'])) by {
                assert(tail[0] == 'n');
            }
        }
        Some((JVal::JNull, 4))
    } else {
        proof {
            lemma_lit_mismatch(tail, s@, pos as int, s_len as int);
        }
        None
    }
}

/// When none of the literal heads matched, the specification parser rejects
/// the input too.
proof fn lemma_lit_mismatch(tail: Seq<char>, s: Seq<char>, pos: int, s_len: int)
    requires
        0 <= pos <= s_len,
        s_len == s.len(),
        tail == s.skip(pos),
        tail.len() > 0,
        tail[0] != '"',
        tail[0] != '-',
        !is_dec_digit(tail[0]),
        !(tail.len() >= 4 && prefix_eq(s, pos, "true"@)),
        !(tail.len() >= 5 && prefix_eq(s, pos, "false"@)),
        !(tail.len() >= 4 && prefix_eq(s, pos, "null"@)),
    ensures
        sp_value(tail) is None,
{
    reveal_strlit("true");
    reveal_strlit("false");
    reveal_strlit("null");
    if tail.len() >= 4 && tail.subrange(0, 4) == seq!['t', 'r', 'u', 'e'] {
        assert(prefix_eq(s, pos, "true"@)) by {
            assert(forall|j: int| 0 <= j < 4 ==> s[pos + j] == tail.subrange(0, 4)[j]);
        }
    }
    if tail.len() >= 5 && tail.subrange(0, 5) == seq!['f', 'a', 'l', 's', 'e'] {
        assert(prefix_eq(s, pos, "false"@)) by {
            assert(forall|j: int| 0 <= j < 5 ==> s[pos + j] == tail.subrange(0, 5)[j]);
        }
    }
    if tail.len() >= 4 && tail.subrange(0, 4) == seq!['n', 'u', 'l', 'l'] {
        assert(prefix_eq(s, pos, "null"@)) by {
            assert(forall|j: int| 0 <= j < 4 ==> s[pos + j] == tail.subrange(0, 4)[j]);
        }
    }
}

proof fn lemma_prefix_char(s: Seq<char>, i: int, p: Seq<char>, j: int)
    requires
        prefix_eq(s, i, p),
        0 <= j < p.len(),
    ensures
        s[i + j] == p[j],
{
}

/// Whether `p` occurs in `s` at position `i`.
pub open spec fn prefix_eq(s: Seq<char>, i: int, p: Seq<char>) -> bool {
    &&& 0 <= i
    &&& i + p.len() <= s.len()
    &&& forall|j: int| 0 <= j < p.len() ==> s[i + j] == p[j]
}

/// Whether the literal `lit` stands at position `pos` of `s`.
fn match_lit_at(s: &str, s_len: usize, pos: usize, lit: &str) -> (b: bool)
    requires
        s_len == s@.len(),
        pos <= s_len,
    ensures
        b == (pos + lit@.len() <= s_len && prefix_eq(s@, pos as int, lit@)),
{
    let l_len = lit.unicode_len();
    if l_len > s_len - pos {
        return false;
    }
    let mut j: usize = 0;
    while j < l_len
        invariant
            s_len == s@.len(),
            l_len == lit@.len(),
            pos + l_len <= s_len,
            0 <= j <= l_len,
            forall|k: int| 0 <= k < j ==> s@[pos + k] == lit@[k],
        decreases l_len - j,
    {
        if s.get_char(pos + j) != lit.get_char(j) {
            return false;
        }
        j += 1;
    }
    true
}

/// Whether `c` is a decimal digit.
fn is_digit_char(c: char) -> (b: bool)
    ensures
        b == is_dec_digit(c),
{
    let u = c as u32;
    48 <= u && u <= 57
}

/// Parse the members of a flat object at `pos`, right after the opening
/// brace or a separating comma; mirror of [`sp_members`].
#[verifier::rlimit(60)]
pub fn parse_members_at(s: &str, s_len: usize, pos: usize) -> (r: Option<(Vec<(String, JVal)>, usize)>)
    requires
        s_len == s@.len(),
        pos <= s_len,
    ensures
        match r {
            Some((ms, n)) => sp_members(s@.skip(pos as int)) == Some::<(
                Seq<(Seq<char>, SpecJson)>,
                int,
            )>((assoc_view(ms@), n as int)) && pos + n <= s_len,
            None => sp_members(s@.skip(pos as int)) is None,
        },
    decreases s_len - pos,
{
    let ghost tail = s@.skip(pos as int);
    if pos == s_len {
        return None;
    }
    let c = s.get_char(pos);
    proof {
        assert(tail[0] == c);
    }
    if c != '"' {
        return None;
    }
    proof {
        assert(tail.skip(1) =~= s@.skip(pos + 1));
    }
    let parsed_key = parse_string_body(s, s_len, pos + 1);
    match parsed_key {
        None => None,
        Some((key, kn)) => {
            if pos + 1 + kn >= s_len {
                return None;
            }
            let colon = s.get_char(pos + 1 + kn);
            proof {
                assert(tail[1 + kn] == s@[pos + 1 + kn]);
            }
            if colon != ':' {
                return None;
            }
            proof {
                assert(tail.skip(2 + kn) =~= s@.skip(pos + 2 + kn));
            }
            match parse_value_at(s, s_len, pos + 2 + kn) {
                None => None,
                Some((v, vn)) => {
                    if pos + 2 + kn + vn >= s_len {
                        return None;
                    }
                    let sep = s.get_char(pos + 2 + kn + vn);
                    proof {
                        assert(tail[2 + kn + vn] == s@[pos + 2 + kn + vn]);
                    }
                    if sep == '}' {
                        let ghost gkey = key@;
                        let ghost gv = v@;
                        let mut ms: Vec<(String, JVal)> = Vec::new();
                        ms.push((key, v));
                        proof {
                            assert(ms@[0].0@ == gkey && ms@[0].1@ == gv);
                            assert(assoc_view(ms@) =~= seq![(gkey, gv)]);
                            assert(tail.len() > 0 && tail[0] == '"');
                            assert(sp_string_body(tail.skip(1)) == Some::<(Seq<char>, int)>(
                                (gkey, kn as int),
                            ));
                            assert(kn >= 1 && 1 + kn < tail.len() && tail[1 + kn] == ':');
                            assert(sp_value(tail.skip(2 + kn)) == Some::<(SpecJson, int)>(
                                (gv, vn as int),
                            ));
                            assert(vn >= 1 && 2 + kn + vn < tail.len());
                            assert(tail[2 + kn + vn] == '}');
                            assert(sp_members(tail) == Some::<(Seq<(Seq<char>, SpecJson)>, int)>(
                                (seq![(gkey, gv)], 3 + kn + vn),
                            ));
                        }
                        Some((ms, 3 + kn + vn))
                    } else if sep == ',' {
                        proof {
                            assert(tail.skip(3 + kn + vn) =~= s@.skip(pos + 3 + kn + vn));
                        }
                        match parse_members_at(s, s_len, pos + 3 + kn + vn) {
                            None => None,
                            Some((rest, mn)) => {
                                let ghost gkey = key@;
                                let ghost gv = v@;
                                let ghost grest = rest@;
                                let mut ms = rest;
                                ms.insert(0, (key, v));
                                proof {
                                    assert(ms@[0].0@ == gkey && ms@[0].1@ == gv);
                                    assert(ms@.skip(1) =~= grest);
                                    assert(assoc_view(ms@.skip(1)) == assoc_view(grest));
                                    assert forall|k: int| 0 <= k < ms@.len() implies assoc_view(
                                        ms@,
                                    )[k] == (seq![(gkey, gv)] + assoc_view(grest))[k] by {
                                        if k > 0 {
                                            assert(ms@[k] == grest[k - 1]);
                                            assert(assoc_view(grest)[k - 1] == (
                                                grest[k - 1].0@,
                                                grest[k - 1].1@,
                                            ));
                                        }
                                    }
                                    assert(assoc_view(ms@) =~= seq![(gkey, gv)] + assoc_view(
                                        grest,
                                    ));
                                }
                                Some((ms, 3 + kn + vn + mn))
                            },
                        }
                    } else {
                        None
                    }
                },
            }
        },
    }
}

/// Parse a complete flat JSON object; mirror of [`sp_flat_object`].
pub fn parse_flat_object(s: &str) -> (r: Option<Vec<(String, JVal)>>)
    ensures
        match r {
            Some(ms) => sp_flat_object(s@) == Some::<Seq<(Seq<char>, SpecJson)>>(assoc_view(ms@)),
            None => sp_flat_object(s@) is None,
        },
{
    let s_len = s.unicode_len();
    if s_len == 0 {
        return None;
    }
    let c0 = s.get_char(0);
    if c0 != '{' {
        return None;
    }
    if s_len == 2 && s.get_char(1) == '}' {
        let ms: Vec<(String, JVal)> = Vec::new();
        proof {
            assert(assoc_view(ms@) =~= Seq::<(Seq<char>, SpecJson)>::empty());
        }
        return Some(ms);
    }
    proof {
        assert(s@.skip(0) =~= s@);
        assert(s@.skip(1) == s@.skip(0).skip(1)) by {
            assert(s@.skip(0).skip(1) =~= s@.skip(1));
        }
    }
    match parse_members_at(s, s_len, 1) {
        None => {
            proof {
                if s@.len() == 2 && s@[1] == '}' {
                    assert(false);
                }
            }
            None
        },
        Some((ms, n)) => {
            if 1 + n == s_len {
                proof {
                    if s@.len() == 2 && s@[1] == '}' {
                        // A lone closing brace is no member list.
                        assert(sp_members(s@.skip(1)) is None);
                    }
                }
                Some(ms)
            } else {
                None
            }
        },
    }
}

/// Look up the value under the first occurrence of `key`; mirror of
/// [`sp_lookup`].
pub fn assoc_lookup<'a>(ms: &'a Vec<(String, JVal)>, key: &String) -> (r: Option<&'a JVal>)
    ensures
        match r {
            Some(v) => sp_lookup(assoc_view(ms@), key@) == Some::<SpecJson>(v@),
            None => sp_lookup(assoc_view(ms@), key@) is None,
        },
{
    let n = ms.len();
    let mut i: usize = 0;
    proof {
        assert(assoc_view(ms@).skip(0) =~= assoc_view(ms@));
    }
    while i < n
        invariant
            n == ms@.len(),
            0 <= i <= n,
            sp_lookup(assoc_view(ms@), key@) == sp_lookup(
                assoc_view(ms@).skip(i as int),
                key@,
            ),
            forall|k: int| 0 <= k < i ==> assoc_view(ms@)[k].0 != key@,
        decreases n - i,
    {
        let pair = &ms[i];
        if pair.0.eq(key) {
            proof {
                assert(assoc_view(ms@).skip(i as int)[0] == (ms@[i as int].0@, ms@[i as int].1@));
            }
            return Some(&pair.1);
        }
        proof {
            assert(assoc_view(ms@).skip(i as int)[0] == (ms@[i as int].0@, ms@[i as int].1@));
            assert(assoc_view(ms@).skip(i as int).skip(1) =~= assoc_view(ms@).skip(i + 1));
        }
        i += 1;
    }
    proof {
        assert(assoc_view(ms@).skip(n as int) =~= Seq::<(Seq<char>, SpecJson)>::empty());
    }
    None
}

// ---------------------------------------------------------------------------
// Object encoding and its round trip
// ---------------------------------------------------------------------------

/// The rendering of one leaf value.
pub open spec fn sjson_text(v: SpecJson) -> Seq<char> {
    match v {
        SpecJson::SStr(t) => json_string(t),
        SpecJson::SInt(i) => dec_int(i),
        SpecJson::SBool(b) => if b {
            seq!['t', 'r', 'u', 'e']
        } else {
            seq!['f', 'a', 'l', 's', 'e']
        },
        SpecJson::SNull => seq!['n', 'u', 'l', 'l'],
    }
}

/// Whether a leaf value renders to a token the parser takes back: integers
/// must fit the 64-bit signed range.
pub open spec fn sjson_ok(v: SpecJson) -> bool {
    match v {
        SpecJson::SInt(i) => i64::MIN <= i <= i64::MAX,
        _ => true,
    }
}

/// The members of an object, each `"key":value`, comma-separated, with the
/// closing brace.
pub open spec fn members_json(ms: Seq<(Seq<char>, SpecJson)>) -> Seq<char>
    decreases ms.len(),
{
    if ms.len() == 0 {
        Seq::empty()
    } else {
        json_string(ms[0].0) + seq![':'] + sjson_text(ms[0].1) + if ms.len() == 1 {
            seq!['}']
        } else {
            seq![','] + members_json(ms.skip(1))
        }
    }
}

/// A whole flat object in compact form.
pub open spec fn object_json(ms: Seq<(Seq<char>, SpecJson)>) -> Seq<char> {
    if ms.len() == 0 {
        seq!['{', '}']
    } else {
        seq!['{'] + members_json(ms)
    }
}

proof fn lemma_dec_digits_head(n: nat)
    ensures
        dec_digits(n).len() >= 1,
        is_dec_digit(dec_digits(n)[0]),
    decreases n,
{
    lemma_dec_digits_are_digits(n);
}

/// Law: parsing inverts signed decimal rendering, whatever non-digit tail
/// follows.
pub proof fn lemma_i64_roundtrip(i: int, rest: Seq<char>)
    requires
        i64::MIN <= i <= i64::MAX,
        rest.len() > 0 ==> !is_dec_digit(rest[0]),
    ensures
        sp_i64(dec_int(i) + rest) == Some::<(int, int)>((i, dec_int(i).len() as int)),
{
    lemma_pow10_19();
    let s = dec_int(i) + rest;
    if i < 0 {
        let m = -i;
        let ds = dec_digits(m as nat);
        assert(dec_int(i) =~= seq!['-'] + ds);
        assert(s[0] == '-');
        assert(!is_dec_digit('-'));
        assert(s.skip(1) =~= ds + rest);
        assert((m as u64) as int == m);
        lemma_u64_roundtrip(m as u64, rest);
        assert(sp_u64(s.skip(1)) == Some::<(int, int)>((m, ds.len() as int)));
        assert(-m >= i64::MIN);
    } else {
        let ds = dec_digits(i as nat);
        assert(dec_int(i) == ds);
        assert(s =~= ds + rest);
        lemma_dec_digits_head(i as nat);
        assert(s[0] == ds[0]);
        assert(is_dec_digit(s[0]));
        assert(s[0] != '-') by {
            assert(('-' as u32) < 48);
        }
        lemma_u64_roundtrip(i as u64, rest);
    }
}

/// Law: parsing inverts the rendering of a leaf value, whatever non-digit
/// tail follows.
pub proof fn lemma_value_roundtrip(v: SpecJson, rest: Seq<char>)
    requires
        sjson_ok(v),
        rest.len() > 0 ==> !is_dec_digit(rest[0]),
    ensures
        sp_value(sjson_text(v) + rest) == Some::<(SpecJson, int)>(
            (v, sjson_text(v).len() as int),
        ),
{
    let s = sjson_text(v) + rest;
    match v {
        SpecJson::SStr(t) => {
            assert(s[0] == '"');
            assert(s.skip(1) =~= esc_seq(t) + seq!['"'] + rest);
            lemma_string_roundtrip(t, rest);
        },
        SpecJson::SInt(i) => {
            lemma_i64_roundtrip(i, rest);
            let d = dec_int(i);
            assert(s =~= d + rest);
            assert(s.skip(0) =~= s);
            if i < 0 {
                assert(s[0] == '-');
            } else {
                lemma_dec_digits_head(i as nat);
                assert(s[0] == d[0]);
            }
            assert(s[0] == '-' || is_dec_digit(s[0]));
            assert(s[0] != '"') by {
                assert(('"' as u32) == 34);
            }
        },
        SpecJson::SBool(b) => {
            if b {
                assert(s.subrange(0, 4) =~= seq!['t', 'r', 'u', 'e']);
                assert(s[0] == 't');
                assert(!is_dec_digit('t') && 't' != '"' && 't' != '-');
            } else {
                assert(s.subrange(0, 5) =~= seq!['f', 'a', 'l', 's', 'e']);
                assert(s[0] == 'f');
                assert(!is_dec_digit('f') && 'f' != '"' && 'f' != '-');
                assert(!(s.len() >= 4 && s.subrange(0, 4) == seq!['t', 'r', 'u', 'e'])) by {
                    assert(s.subrange(0, 4)[0] == 'f');
                }
            }
        },
        SpecJson::SNull => {
            assert(s.subrange(0, 4) =~= seq!['n', 'u', 'l', 'l']);
            assert(s[0] == 'n');
            assert(!is_dec_digit('n') && 'n' != '"' && 'n' != '-');
            assert(!(s.len() >= 4 && s.subrange(0, 4) == seq!['t', 'r', 'u', 'e'])) by {
                assert(s.subrange(0, 4)[0] == 'n');
            }
            assert(!(s.len() >= 5 && s.subrange(0, 5) == seq!['f', 'a', 'l', 's', 'e'])) by {
                if s.len() >= 5 {
                    assert(s.subrange(0, 5)[0] == 'n');
                }
            }
        },
    }
}

/// Whether every member renders to tokens the parser takes back.
pub open spec fn members_ok(ms: Seq<(Seq<char>, SpecJson)>) -> bool {
    forall|i: int| 0 <= i < ms.len() ==> sjson_ok((#[trigger] ms[i]).1)
}

/// Law: parsing inverts the rendering of an object's members.
#[verifier::rlimit(100)]
pub proof fn lemma_members_roundtrip(ms: Seq<(Seq<char>, SpecJson)>, rest: Seq<char>)
    requires
        ms.len() >= 1,
        members_ok(ms),
    ensures
        sp_members(members_json(ms) + rest) == Some::<(Seq<(Seq<char>, SpecJson)>, int)>(
            (ms, members_json(ms).len() as int),
        ),
    decreases ms.len(),
{
    let s = members_json(ms) + rest;
    let key = ms[0].0;
    let v = ms[0].1;
    let jk = json_string(key);
    let jv = sjson_text(v);
    let sep_rest: Seq<char> = if ms.len() == 1 {
        seq!['}'] + rest
    } else {
        seq![','] + members_json(ms.skip(1)) + rest
    };
    assert(s =~= jk + seq![':'] + jv + sep_rest);
    assert(s[0] == '"');
    assert(s.skip(1) =~= esc_seq(key) + seq!['"'] + (seq![':'] + jv + sep_rest));
    lemma_string_roundtrip(key, seq![':'] + jv + sep_rest);
    let kn = esc_seq(key).len() as int + 1;
    assert(sp_string_body(s.skip(1)) == Some::<(Seq<char>, int)>((key, kn)));
    assert(jk.len() == kn + 1);
    assert(s[1 + kn] == ':') by {
        assert(s[1 + kn] == (seq![':'] + jv + sep_rest)[0]);
    }
    assert(s.skip(2 + kn) =~= jv + sep_rest);
    assert(sep_rest.len() > 0 && !is_dec_digit(sep_rest[0])) by {
        assert(!is_dec_digit('}') && !is_dec_digit(','));
    }
    lemma_value_roundtrip(v, sep_rest);
    let vn = jv.len() as int;
    assert(sp_value(s.skip(2 + kn)) == Some::<(SpecJson, int)>((v, vn)));
    assert(vn >= 1) by {
        match v {
            SpecJson::SStr(t) => {},
            SpecJson::SInt(i) => {
                if i >= 0 {
                    lemma_dec_digits_head(i as nat);
                } else {
                }
            },
            SpecJson::SBool(b) => {},
            SpecJson::SNull => {},
        }
    }
    assert(s[2 + kn + vn] == sep_rest[0]);
    if ms.len() == 1 {
        assert(s[2 + kn + vn] == '}');
        assert(seq![(key, v)] =~= ms);
        assert(members_json(ms).len() == 3 + kn + vn);
        assert(sp_members(s) == Some::<(Seq<(Seq<char>, SpecJson)>, int)>(
            (ms, members_json(ms).len() as int),
        ));
    } else {
        assert(s[2 + kn + vn] == ',');
        let tail_ms = ms.skip(1);
        assert(members_ok(tail_ms)) by {
            assert(forall|i: int|
                0 <= i < tail_ms.len() ==> #[trigger] tail_ms[i] == ms[i + 1]);
        }
        lemma_members_roundtrip(tail_ms, rest);
        assert(s.skip(3 + kn + vn) =~= members_json(tail_ms) + rest);
        assert(seq![(key, v)] + tail_ms =~= ms);
        assert(members_json(ms).len() == 3 + kn + vn + members_json(tail_ms).len());
        assert(sp_members(s) == Some::<(Seq<(Seq<char>, SpecJson)>, int)>(
            (ms, members_json(ms).len() as int),
        ));
    }
}

/// Law: parsing inverts object rendering. A flat object written in compact
/// form parses back to exactly its members.
pub proof fn lemma_object_roundtrip(ms: Seq<(Seq<char>, SpecJson)>)
    requires
        members_ok(ms),
    ensures
        sp_flat_object(object_json(ms)) == Some::<Seq<(Seq<char>, SpecJson)>>(ms),
{
    let s = object_json(ms);
    if ms.len() == 0 {
        assert(s.len() == 2 && s[0] == '{' && s[1] == '}');
        assert(ms =~= Seq::<(Seq<char>, SpecJson)>::empty());
    } else {
        lemma_members_roundtrip(ms, Seq::empty());
        assert(members_json(ms) + Seq::<char>::empty() =~= members_json(ms));
        assert(s[0] == '{');
        assert(s.skip(1) =~= members_json(ms));
        assert(members_json(ms)[0] == '"');
        assert(s[1] == '"');
        assert(!(s.len() == 2 && s[1] == '}'));
        assert(1 + members_json(ms).len() == s.len());
    }
}

/// Append one leaf value to `out`.
pub fn push_value(out: &mut String, v: &JVal)
    ensures
        final(out)@ == old(out)@ + sjson_text(v@),
{
    match v {
        JVal::JStr(t) => {
            push_json_string(out, t.as_str());
        },
        JVal::JInt(i) => {
            crate::strutil::push_dec_i64(out, *i);
        },
        JVal::JBool(b) => {
            if *b {
                proof {
                    reveal_strlit("true");
                }
                out.append("true");
                proof {
                    assert("true"@ =~= seq!['t', 'r', 'u', 'e']);
                }
            } else {
                proof {
                    reveal_strlit("false");
                }
                out.append("false");
                proof {
                    assert("false"@ =~= seq!['f', 'a', 'l', 's', 'e']);
                }
            }
        },
        JVal::JNull => {
            proof {
                reveal_strlit("null");
            }
            out.append("null");
            proof {
                assert("null"@ =~= seq!['n', 'u', 'l', 'l']);
            }
        },
    }
}

/// Append a whole flat object to `out`.
pub fn push_object(out: &mut String, pairs: &Vec<(String, JVal)>)
    ensures
        final(out)@ == old(out)@ + object_json(assoc_view(pairs@)),
{
    proof {
        reveal_strlit("{");
        reveal_strlit("}");
        reveal_strlit("{}");
        reveal_strlit(":");
        reveal_strlit(",");
    }
    let n = pairs.len();
    if n == 0 {
        out.append("{}");
        proof {
            assert(assoc_view(pairs@) =~= Seq::<(Seq<char>, SpecJson)>::empty());
            assert(final(out)@ =~= old(out)@ + object_json(assoc_view(pairs@)));
        }
        return ;
    }
    out.append("{");
    let mut i: usize = 0;
    proof {
        assert(assoc_view(pairs@).skip(0) =~= assoc_view(pairs@));
    }
    while i < n
        invariant
            n == pairs@.len(),
            n > 0,
            0 <= i <= n,
            i < n ==> out@ + members_json(assoc_view(pairs@).skip(i as int)) == old(out)@
                + object_json(assoc_view(pairs@)),
            i == n ==> out@ == old(out)@ + object_json(assoc_view(pairs@)),
        decreases n - i,
    {
        proof {
            reveal_strlit("{");
            reveal_strlit("}");
            reveal_strlit(":");
            reveal_strlit(",");
            assert(assoc_view(pairs@).skip(i as int)[0] == (
                pairs@[i as int].0@,
                pairs@[i as int].1@,
            ));
            assert(assoc_view(pairs@).skip(i as int).skip(1) =~= assoc_view(pairs@).skip(i + 1));
        }
        let pair = &pairs[i];
        push_json_string(out, pair.0.as_str());
        out.append(":");
        push_value(out, &pair.1);
        if i + 1 == n {
            out.append("}");
            proof {
                assert(assoc_view(pairs@).skip(i as int).len() == 1);
                assert(":"@ =~= seq![':']);
                assert("}"@ =~= seq!['}']);
                assert(out@ =~= old(out)@ + object_json(assoc_view(pairs@)));
            }
        } else {
            out.append(",");
            proof {
                assert(assoc_view(pairs@).skip(i as int).len() > 1);
                assert(":"@ =~= seq![':']);
                assert(","@ =~= seq![',']);
                assert(out@ + members_json(assoc_view(pairs@).skip(i + 1)) =~= old(out)@
                    + object_json(assoc_view(pairs@)));
            }
        }
        i += 1;
    }
}

} // verus!

