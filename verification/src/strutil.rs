//! String scanning and building helpers shared across the crate:
//! decimal rendering of integers, substring search, line counting,
//! and character-based truncation.

use vstd::prelude::*;

verus! {

// ---------------------------------------------------------------------------
// Decimal rendering
// ---------------------------------------------------------------------------

/// The character for a single decimal digit.
pub open spec fn digit_char(d: int) -> char
    recommends
        0 <= d < 10,
{
    if d == 0 {
        '0'
    } else if d == 1 {
        '1'
    } else if d == 2 {
        '2'
    } else if d == 3 {
        '3'
    } else if d == 4 {
        '4'
    } else if d == 5 {
        '5'
    } else if d == 6 {
        '6'
    } else if d == 7 {
        '7'
    } else if d == 8 {
        '8'
    } else {
        '9'
    }
}

/// The decimal digits of `n`, most significant first, with no leading zeros
/// (a single `'0'` for zero).
pub open spec fn dec_digits(n: nat) -> Seq<char>
    decreases n,
{
    if n < 10 {
        seq![digit_char(n as int)]
    } else {
        dec_digits(n / 10) + seq![digit_char((n % 10) as int)]
    }
}

/// The decimal rendering of a signed value: a leading `'-'` for negatives.
pub open spec fn dec_int(n: int) -> Seq<char> {
    if n < 0 {
        seq!['-'] + dec_digits((-n) as nat)
    } else {
        dec_digits(n as nat)
    }
}

/// A one-character string slice for the decimal digit `d`.
fn digit_str(d: u64) -> (r: &'static str)
    requires
        d < 10,
    ensures
        r@ == seq![digit_char(d as int)],
{
    proof {
        reveal_strlit("0");
        reveal_strlit("1");
        reveal_strlit("2");
        reveal_strlit("3");
        reveal_strlit("4");
        reveal_strlit("5");
        reveal_strlit("6");
        reveal_strlit("7");
        reveal_strlit("8");
        reveal_strlit("9");
    }
    let r: &'static str = if d == 0 {
        "0"
    } else if d == 1 {
        "1"
    } else if d == 2 {
        "2"
    } else if d == 3 {
        "3"
    } else if d == 4 {
        "4"
    } else if d == 5 {
        "5"
    } else if d == 6 {
        "6"
    } else if d == 7 {
        "7"
    } else if d == 8 {
        "8"
    } else {
        "9"
    };
    proof {
        assert(r@ =~= seq![digit_char(d as int)]);
    }
    r
}

/// Append the decimal rendering of `n` to `out`.
pub fn push_dec_u64(out: &mut String, n: u64)
    ensures
        final(out)@ == old(out)@ + dec_digits(n as nat),
    decreases n,
{
    if n >= 10 {
        push_dec_u64(out, n / 10);
    }
    out.append(digit_str(n % 10));
    proof {
        if n < 10 {
            assert(final(out)@ =~= old(out)@ + dec_digits(n as nat));
        } else {
            assert(final(out)@ =~= old(out)@ + dec_digits(n as nat));
        }
    }
}

/// The decimal rendering of `n` as a `String`.
pub fn u64_to_dec(n: u64) -> (r: String)
    ensures
        r@ == dec_digits(n as nat),
{
    let mut s = String::new();
    push_dec_u64(&mut s, n);
    proof {
        assert(s@ =~= dec_digits(n as nat));
    }
    s
}

/// Append the decimal rendering of a signed value to `out`.
pub fn push_dec_i64(out: &mut String, n: i64)
    ensures
        final(out)@ == old(out)@ + dec_int(n as int),
{
    proof {
        reveal_strlit("-");
    }
    if n < 0 {
        let mag: u64 = if n == i64::MIN {
            9223372036854775808u64
        } else {
            (-n) as u64
        };
        out.append("-");
        push_dec_u64(out, mag);
        proof {
            assert(final(out)@ =~= old(out)@ + dec_int(n as int));
        }
    } else {
        push_dec_u64(out, n as u64);
    }
}

// ---------------------------------------------------------------------------
// Substring search
// ---------------------------------------------------------------------------

/// Whether the pattern `p` occurs in `s` at position `i`.
pub open spec fn occurs_at(s: Seq<char>, p: Seq<char>, i: int) -> bool {
    0 <= i && i + p.len() <= s.len() && s.subrange(i, i + p.len() as int) == p
}

/// Whether the pattern `p` occurs anywhere in `s`.
pub open spec fn contains_seq(s: Seq<char>, p: Seq<char>) -> bool {
    exists|i: int| occurs_at(s, p, i)
}

/// Whether `p` matches `s` at position `i`, checked character by character.
fn matches_at(s: &str, s_len: usize, p: &str, p_len: usize, i: usize) -> (b: bool)
    requires
        s_len == s@.len(),
        p_len == p@.len(),
        i + p_len <= s_len,
    ensures
        b == occurs_at(s@, p@, i as int),
{
    let mut j: usize = 0;
    while j < p_len
        invariant
            s_len == s@.len(),
            p_len == p@.len(),
            i + p_len <= s_len,
            0 <= j <= p_len,
            forall|k: int| 0 <= k < j ==> s@[i + k] == p@[k],
        decreases p_len - j,
    {
        if s.get_char(i + j) != p.get_char(j) {
            proof {
                assert(s@.subrange(i as int, i + p@.len() as int)[j as int] != p@[j as int]);
            }
            return false;
        }
        j += 1;
    }
    proof {
        assert(s@.subrange(i as int, i + p@.len() as int) =~= p@);
    }
    true
}

/// Whether the string `p` occurs as a substring of `s`.
pub fn str_contains(s: &str, p: &str) -> (b: bool)
    ensures
        b == contains_seq(s@, p@),
{
    let s_len = s.unicode_len();
    let p_len = p.unicode_len();
    if p_len > s_len {
        proof {
            assert(forall|i: int| !occurs_at(s@, p@, i));
        }
        return false;
    }
    if p_len == 0 {
        proof {
            assert(s@.subrange(0, 0) =~= p@);
            assert(occurs_at(s@, p@, 0));
        }
        return true;
    }
    let mut i: usize = 0;
    while i <= s_len - p_len
        invariant
            s_len == s@.len(),
            p_len == p@.len(),
            0 < p_len <= s_len,
            0 <= i <= s_len - p_len + 1,
            forall|k: int| 0 <= k < i ==> !occurs_at(s@, p@, k),
        decreases s_len - i,
    {
        if matches_at(s, s_len, p, p_len, i) {
            return true;
        }
        i += 1;
    }
    proof {
        assert(forall|k: int| occurs_at(s@, p@, k) ==> 0 <= k <= s@.len() - p@.len());
    }
    false
}

/// Whether two string slices hold the same characters.
pub fn str_eq(a: &str, b: &str) -> (r: bool)
    ensures
        r == (a@ == b@),
{
    let a_len = a.unicode_len();
    let b_len = b.unicode_len();
    if a_len != b_len {
        proof {
            assert(a@ != b@);
        }
        return false;
    }
    let mut i: usize = 0;
    while i < a_len
        invariant
            a_len == a@.len(),
            a_len == b@.len(),
            0 <= i <= a_len,
            forall|k: int| 0 <= k < i ==> a@[k] == b@[k],
        decreases a_len - i,
    {
        if a.get_char(i) != b.get_char(i) {
            return false;
        }
        i += 1;
    }
    proof {
        assert(a@ =~= b@);
    }
    true
}

// ---------------------------------------------------------------------------
// Truncation
// ---------------------------------------------------------------------------

/// `s` unchanged when it has at most `max_len` characters, else its first
/// `max_len` characters followed by `"..."`.
pub open spec fn truncated(s: Seq<char>, max_len: int) -> Seq<char> {
    if s.len() <= max_len {
        s
    } else {
        s.subrange(0, max_len) + seq!['.', '.', '.']
    }
}

/// Truncate a string to `max_len` characters, appending `"..."` if truncated.
pub fn truncate_chars(s: &str, max_len: usize) -> (r: String)
    ensures
        r@ == truncated(s@, max_len as int),
{
    proof {
        reveal_strlit("...");
    }
    let len = s.unicode_len();
    if len > max_len {
        let head = s.substring_char(0, max_len);
        let mut r = head.to_owned();
        r.append("...");
        proof {
            assert("..."@ =~= seq!['.', '.', '.']);
            assert(r@ =~= truncated(s@, max_len as int));
        }
        r
    } else {
        s.to_owned()
    }
}

// ---------------------------------------------------------------------------
// Lines
// ---------------------------------------------------------------------------

/// The number of `'\n'` characters in `s`.
pub open spec fn newline_count(s: Seq<char>) -> nat
    decreases s.len(),
{
    if s.len() == 0 {
        0
    } else {
        newline_count(s.drop_last()) + if s.last() == '\n' {
            1nat
        } else {
            0nat
        }
    }
}

proof fn lemma_newline_count_le(s: Seq<char>)
    ensures
        newline_count(s) <= s.len(),
    decreases s.len(),
{
    if s.len() > 0 {
        lemma_newline_count_le(s.drop_last());
    }
}

/// The number of lines in `s`, as a line iterator counts them: an empty
/// string has none, and a trailing newline does not open a final empty line.
pub open spec fn line_count(s: Seq<char>) -> nat {
    if s.len() == 0 {
        0
    } else if s.last() == '\n' {
        newline_count(s)
    } else {
        newline_count(s) + 1
    }
}

/// Count the lines of `s`.
pub fn count_lines(s: &str) -> (n: usize)
    ensures
        n == line_count(s@),
{
    let len = s.unicode_len();
    let mut newlines: usize = 0;
    let mut i: usize = 0;
    while i < len
        invariant
            len == s@.len(),
            0 <= i <= len,
            newlines == newline_count(s@.subrange(0, i as int)),
            newlines <= i,
        decreases len - i,
    {
        let c = s.get_char(i);
        proof {
            assert(s@.subrange(0, i + 1).drop_last() =~= s@.subrange(0, i as int));
            assert(s@.subrange(0, i + 1).last() == s@[i as int]);
        }
        if c == '\n' {
            newlines += 1;
        }
        i += 1;
    }
    proof {
        assert(s@.subrange(0, len as int) =~= s@);
    }
    if len == 0 {
        0
    } else if s.get_char(len - 1) == '\n' {
        newlines
    } else {
        proof {
            // The last character is no newline, so some character was not
            // counted and the count is strictly below the length.
            assert(newline_count(s@) == newline_count(s@.drop_last()));
            lemma_newline_count_le(s@.drop_last());
        }
        newlines + 1
    }
}

/// The index of the first `'\n'` in `s`, or the length of `s` if none.
pub open spec fn first_newline(s: Seq<char>) -> int
    decreases s.len(),
{
    if s.len() == 0 {
        0
    } else if s[0] == '\n' {
        0
    } else {
        1 + first_newline(s.subrange(1, s.len() as int))
    }
}

proof fn lemma_first_newline_bounds(s: Seq<char>)
    ensures
        0 <= first_newline(s) <= s.len(),
        forall|k: int| 0 <= k < first_newline(s) ==> s[k] != '\n',
        first_newline(s) < s.len() ==> s[first_newline(s)] == '\n',
    decreases s.len(),
{
    if s.len() == 0 {
    } else if s[0] == '\n' {
    } else {
        let t = s.subrange(1, s.len() as int);
        lemma_first_newline_bounds(t);
        assert forall|k: int| 0 <= k < first_newline(s) implies s[k] != '\n' by {
            if k > 0 {
                assert(s[k] == t[k - 1]);
            }
        }
        if first_newline(s) < s.len() {
            assert(s[first_newline(s)] == t[first_newline(s) - 1]);
        }
    }
}

/// The first line of `s`: everything before the first `'\n'`.
pub open spec fn first_line(s: Seq<char>) -> Seq<char> {
    s.subrange(0, first_newline(s))
}

/// The first line of `s` as a fresh `String`.
pub fn take_first_line(s: &str) -> (r: String)
    ensures
        r@ == first_line(s@),
{
    let len = s.unicode_len();
    let mut i: usize = 0;
    proof {
        lemma_first_newline_bounds(s@);
    }
    while i < len && s.get_char(i) != '\n'
        invariant
            len == s@.len(),
            0 <= i <= len,
            forall|k: int| 0 <= k < i ==> s@[k] != '\n',
        decreases len - i,
    {
        i += 1;
    }
    proof {
        // i is the first newline position (or the length).
        if i < len {
            assert(s@[i as int] == '\n');
        }
        assert(first_newline(s@) == i) by {
            lemma_first_newline_unique(s@, i as int);
        }
    }
    let head = s.substring_char(0, i);
    head.to_owned()
}

proof fn lemma_first_newline_unique(s: Seq<char>, i: int)
    requires
        0 <= i <= s.len(),
        forall|k: int| 0 <= k < i ==> s[k] != '\n',
        i < s.len() ==> s[i] == '\n',
    ensures
        first_newline(s) == i,
    decreases s.len(),
{
    if s.len() == 0 {
    } else if s[0] == '\n' {
        assert(i == 0);
    } else {
        let t = s.subrange(1, s.len() as int);
        assert(i >= 1);
        assert(forall|k: int| 0 <= k < i - 1 ==> t[k] == s[k + 1] && t[k] != '\n');
        if i - 1 < t.len() {
            assert(t[i - 1] == s[i]);
        }
        lemma_first_newline_unique(t, i - 1);
    }
}

// ---------------------------------------------------------------------------
// Trimming
// ---------------------------------------------------------------------------

/// ASCII whitespace: space, tab, newline, carriage return.
pub open spec fn is_ws(c: char) -> bool {
    c == ' ' || c == '\t' || c == '\n' || c == '\r'
}

/// The index of the first character that is no whitespace, or the length.
pub open spec fn ws_start(s: Seq<char>) -> int
    decreases s.len(),
{
    if s.len() == 0 {
        0
    } else if !is_ws(s[0]) {
        0
    } else {
        1 + ws_start(s.skip(1))
    }
}

/// The index one past the last character that is no whitespace, at least
/// `from`.
pub open spec fn ws_end(s: Seq<char>, from: int) -> int
    decreases s.len(),
{
    if s.len() == 0 {
        from
    } else if !is_ws(s.last()) {
        s.len() as int
    } else if s.len() as int <= from {
        from
    } else {
        ws_end(s.drop_last(), from)
    }
}

/// The text with surrounding whitespace removed.
pub open spec fn trimmed_ws(s: Seq<char>) -> Seq<char> {
    let a = ws_start(s);
    let b = ws_end(s, a);
    s.subrange(a, b)
}

proof fn lemma_ws_start_bounds(s: Seq<char>)
    ensures
        0 <= ws_start(s) <= s.len(),
        forall|k: int| 0 <= k < ws_start(s) ==> is_ws(s[k]),
        ws_start(s) < s.len() ==> !is_ws(s[ws_start(s)]),
    decreases s.len(),
{
    if s.len() > 0 && is_ws(s[0]) {
        let t = s.skip(1);
        lemma_ws_start_bounds(t);
        assert forall|k: int| 0 <= k < ws_start(s) implies is_ws(s[k]) by {
            if k > 0 {
                assert(s[k] == t[k - 1]);
            }
        }
        if ws_start(s) < s.len() {
            assert(s[ws_start(s)] == t[ws_start(s) - 1]);
        }
    }
}

proof fn lemma_ws_end_bounds(s: Seq<char>, from: int)
    requires
        0 <= from <= s.len(),
    ensures
        from <= ws_end(s, from) <= s.len(),
        forall|k: int| ws_end(s, from) <= k < s.len() ==> is_ws(s[k]),
        ws_end(s, from) > from ==> !is_ws(s[ws_end(s, from) - 1]),
    decreases s.len(),
{
    if s.len() == 0 || !is_ws(s.last()) || s.len() as int <= from {
    } else {
        let t = s.drop_last();
        lemma_ws_end_bounds(t, from);
        assert forall|k: int| ws_end(s, from) <= k < s.len() implies is_ws(s[k]) by {
            if k < s.len() - 1 {
                assert(s[k] == t[k]);
            }
        }
        if ws_end(s, from) > from {
            assert(s[ws_end(s, from) - 1] == t[ws_end(t, from) - 1]);
        }
    }
}

/// Whether the character at `i` is whitespace.
fn ws_at(s: &str, s_len: usize, i: usize) -> (b: bool)
    requires
        s_len == s@.len(),
        i < s_len,
    ensures
        b == is_ws(s@[i as int]),
{
    let c = s.get_char(i);
    c == ' ' || c == '\t' || c == '\n' || c == '\r'
}

/// Remove surrounding whitespace.
pub fn trim_ws(s: &str) -> (r: String)
    ensures
        r@ == trimmed_ws(s@),
{
    let len = s.unicode_len();
    proof {
        lemma_ws_start_bounds(s@);
    }
    let mut a: usize = 0;
    while a < len && ws_at(s, len, a)
        invariant
            len == s@.len(),
            0 <= a <= len,
            forall|k: int| 0 <= k < a ==> is_ws(s@[k]),
        decreases len - a,
    {
        a += 1;
    }
    proof {
        lemma_ws_start_unique(s@, a as int);
    }
    let mut b: usize = len;
    while b > a && ws_at(s, len, b - 1)
        invariant
            len == s@.len(),
            a <= b <= len,
            forall|k: int| b <= k < len ==> is_ws(s@[k]),
        decreases b,
    {
        b -= 1;
    }
    proof {
        lemma_ws_end_unique(s@, a as int, b as int);
    }
    let piece = s.substring_char(a, b);
    piece.to_owned()
}

proof fn lemma_ws_start_unique(s: Seq<char>, a: int)
    requires
        0 <= a <= s.len(),
        forall|k: int| 0 <= k < a ==> is_ws(s[k]),
        a < s.len() ==> !is_ws(s[a]),
    ensures
        ws_start(s) == a,
    decreases s.len(),
{
    if s.len() == 0 {
    } else if !is_ws(s[0]) {
        assert(a == 0);
    } else {
        let t = s.skip(1);
        assert(a >= 1);
        assert(forall|k: int| 0 <= k < a - 1 ==> t[k] == s[k + 1] && is_ws(#[trigger] t[k]));
        if a - 1 < t.len() {
            assert(t[a - 1] == s[a]);
        }
        lemma_ws_start_unique(t, a - 1);
    }
}

proof fn lemma_ws_end_unique(s: Seq<char>, from: int, b: int)
    requires
        0 <= from <= b <= s.len(),
        forall|k: int| b <= k < s.len() ==> is_ws(s[k]),
        b > from ==> !is_ws(s[b - 1]),
    ensures
        ws_end(s, from) == b,
    decreases s.len(),
{
    if s.len() == 0 {
    } else if !is_ws(s.last()) {
        assert(b == s.len());
    } else if s.len() as int <= from {
        assert(b == from);
    } else {
        let t = s.drop_last();
        assert(b <= t.len());
        assert(forall|k: int| b <= k < t.len() ==> t[k] == s[k] && is_ws(#[trigger] t[k]));
        if b > from {
            assert(t[b - 1] == s[b - 1]);
        }
        lemma_ws_end_unique(t, from, b);
    }
}

} // verus!
