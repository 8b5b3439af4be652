//! Character-sequence helpers shared by the parsers: whitespace trimming,
//! line splitting, ASCII case folding, integer parsing and decimal output.
//! Every helper is specified over `Seq<char>` views.
use vstd::prelude::*;

verus! {

/// `char::is_whitespace`: the Unicode `White_Space` property.
pub open spec fn is_ws(c: char) -> bool {
    ||| ('\u{9}' <= c && c <= '\u{d}')
    ||| c == ' '
    ||| c == '\u{85}'
    ||| c == '\u{a0}'
    ||| c == '\u{1680}'
    ||| ('\u{2000}' <= c && c <= '\u{200a}')
    ||| c == '\u{2028}'
    ||| c == '\u{2029}'
    ||| c == '\u{202f}'
    ||| c == '\u{205f}'
    ||| c == '\u{3000}'
}

pub fn char_is_ws(c: char) -> (b: bool)
    ensures
        b == is_ws(c),
{
    ('\u{9}' <= c && c <= '\u{d}') || c == ' ' || c == '\u{85}' || c == '\u{a0}' || c
        == '\u{1680}' || ('\u{2000}' <= c && c <= '\u{200a}') || c == '\u{2028}' || c
        == '\u{2029}' || c == '\u{202f}' || c == '\u{205f}' || c == '\u{3000}'
}

/// Index of the first non-whitespace char at or after `i`.
pub open spec fn lead_ws(s: Seq<char>, i: int) -> int
    decreases s.len() - i,
{
    if 0 <= i < s.len() && is_ws(s[i]) {
        lead_ws(s, i + 1)
    } else {
        i
    }
}

/// One past the last non-whitespace char before `j`, not going below `lo`.
pub open spec fn trail_ws(s: Seq<char>, lo: int, j: int) -> int
    decreases j - lo,
{
    if lo < j && j <= s.len() && is_ws(s[j - 1]) {
        trail_ws(s, lo, j - 1)
    } else {
        j
    }
}

/// `str::trim` on a char sequence.
pub open spec fn trim(s: Seq<char>) -> Seq<char> {
    let lo = lead_ws(s, 0);
    s.subrange(lo, trail_ws(s, lo, s.len() as int))
}

pub proof fn lemma_lead_ws_bounds(s: Seq<char>, i: int)
    requires
        0 <= i <= s.len(),
    ensures
        i <= lead_ws(s, i) <= s.len(),
    decreases s.len() - i,
{
    if i < s.len() && is_ws(s[i]) {
        lemma_lead_ws_bounds(s, i + 1);
    }
}

pub proof fn lemma_trail_ws_bounds(s: Seq<char>, lo: int, j: int)
    requires
        0 <= lo <= j <= s.len(),
    ensures
        lo <= trail_ws(s, lo, j) <= j,
    decreases j - lo,
{
    if lo < j && is_ws(s[j - 1]) {
        lemma_trail_ws_bounds(s, lo, j - 1);
    }
}

/// `lead_ws` stops at a non-whitespace char (or the end).
pub proof fn lemma_lead_ws_stop(s: Seq<char>, i: int)
    requires
        0 <= i <= s.len(),
    ensures
        lead_ws(s, i) < s.len() ==> !is_ws(s[lead_ws(s, i)]),
    decreases s.len() - i,
{
    if i < s.len() && is_ws(s[i]) {
        lemma_lead_ws_stop(s, i + 1);
    }
}

/// `trail_ws` stops after a non-whitespace char (or at `lo`).
pub proof fn lemma_trail_ws_stop(s: Seq<char>, lo: int, j: int)
    requires
        0 <= lo <= j <= s.len(),
    ensures
        trail_ws(s, lo, j) > lo ==> !is_ws(s[trail_ws(s, lo, j) - 1]),
    decreases j - lo,
{
    if lo < j && is_ws(s[j - 1]) {
        lemma_trail_ws_stop(s, lo, j - 1);
    }
}

/// Trimming twice is trimming once.
pub proof fn lemma_trim_idempotent(s: Seq<char>)
    ensures
        trim(trim(s)) == trim(s),
{
    let lo = lead_ws(s, 0);
    lemma_lead_ws_bounds(s, 0);
    lemma_lead_ws_stop(s, 0);
    let hi = trail_ws(s, lo, s.len() as int);
    lemma_trail_ws_bounds(s, lo, s.len() as int);
    lemma_trail_ws_stop(s, lo, s.len() as int);
    let t = trim(s);
    if t.len() > 0 {
        assert(t[0] == s[lo]);
        assert(t[t.len() - 1] == s[hi - 1]);
        assert(lead_ws(t, 0) == 0);
        assert(trail_ws(t, 0, t.len() as int) == t.len());
        assert(trim(t) =~= t);
    } else {
        assert(trim(t) =~= t);
    }
}

/// Bounds `(lo, hi)` of `trim(s@)` inside `s`.
pub fn trim_bounds(s: &[char]) -> (r: (usize, usize))
    ensures
        r.0 <= r.1 <= s@.len(),
        r.0 == lead_ws(s@, 0),
        r.1 == trail_ws(s@, r.0 as int, s@.len() as int),
        s@.subrange(r.0 as int, r.1 as int) == trim(s@),
{
    let n = s.len();
    let mut i: usize = 0;
    while i < n && char_is_ws(s[i])
        invariant
            0 <= i <= n,
            n == s@.len(),
            lead_ws(s@, i as int) == lead_ws(s@, 0),
        decreases n - i,
    {
        i += 1;
    }
    let mut j: usize = n;
    while j > i && char_is_ws(s[j - 1])
        invariant
            i <= j <= n,
            n == s@.len(),
            lead_ws(s@, 0) == i,
            trail_ws(s@, i as int, j as int) == trail_ws(s@, i as int, n as int),
        decreases j,
    {
        j -= 1;
    }
    (i, j)
}

/// Copy of `s[lo..hi]`.
pub fn sub_chars(s: &[char], lo: usize, hi: usize) -> (r: Vec<char>)
    requires
        lo <= hi <= s@.len(),
    ensures
        r@ == s@.subrange(lo as int, hi as int),
{
    let mut r: Vec<char> = Vec::new();
    let mut i = lo;
    while i < hi
        invariant
            lo <= i <= hi,
            hi <= s@.len(),
            r@ == s@.subrange(lo as int, i as int),
        decreases hi - i,
    {
        r.push(s[i]);
        i += 1;
    }
    r
}

/// Copy of `s[lo..hi]`.
pub fn sub_bytes(s: &[u8], lo: usize, hi: usize) -> (r: Vec<u8>)
    requires
        lo <= hi <= s@.len(),
    ensures
        r@ == s@.subrange(lo as int, hi as int),
{
    let mut r: Vec<u8> = Vec::new();
    let mut i = lo;
    while i < hi
        invariant
            lo <= i <= hi,
            hi <= s@.len(),
            r@ == s@.subrange(lo as int, i as int),
        decreases hi - i,
    {
        r.push(s[i]);
        i += 1;
    }
    r
}

/// `trim` as a fresh vector.
pub fn trim_chars(s: &[char]) -> (r: Vec<char>)
    ensures
        r@ == trim(s@),
{
    let (lo, hi) = trim_bounds(s);
    sub_chars(s, lo, hi)
}

/// The chars of a string slice.
pub fn str_chars(s: &str) -> (v: Vec<char>)
    ensures
        v@ == s@,
{
    let mut v: Vec<char> = Vec::new();
    for c in it: s.chars()
        invariant
            v@ == it.seq().take(it.index() as int),
            it.seq() == s@,
    {
        v.push(c);
    }
    v
}

/// `String::push`.
#[verifier::external_body]
pub(crate) fn string_push(s: &mut String, c: char)
    ensures
        final(s)@ == old(s)@.push(c),
{
    s.push(c);
}

/// A `String` holding `s[lo..hi]`.
pub fn string_from(s: &[char], lo: usize, hi: usize) -> (r: String)
    requires
        lo <= hi <= s@.len(),
    ensures
        r@ == s@.subrange(lo as int, hi as int),
{
    let mut r = String::new();
    let mut i = lo;
    while i < hi
        invariant
            lo <= i <= hi,
            hi <= s@.len(),
            r@ == s@.subrange(lo as int, i as int),
        decreases hi - i,
    {
        string_push(&mut r, s[i]);
        i += 1;
    }
    r
}

/// Append all of `s` to `out`.
pub fn push_chars(out: &mut String, s: &[char])
    ensures
        final(out)@ == old(out)@ + s@,
{
    let mut i: usize = 0;
    while i < s.len()
        invariant
            0 <= i <= s@.len(),
            out@ == old(out)@ + s@.subrange(0, i as int),
        decreases s@.len() - i,
    {
        string_push(out, s[i]);
        i += 1;
    }
}

/// Append a string slice to `out`.
pub fn push_str(out: &mut String, s: &str)
    ensures
        final(out)@ == old(out)@ + s@,
{
    let v = str_chars(s);
    push_chars(out, v.as_slice());
}

/// A `String` with the given chars.
pub fn string_of(s: &[char]) -> (r: String)
    ensures
        r@ == s@,
{
    string_from(s, 0, s.len())
}

/// A `String` copy of a string slice.
pub fn string_of_str(s: &str) -> (r: String)
    ensures
        r@ == s@,
{
    let v = str_chars(s);
    string_of(v.as_slice())
}

// ---------------------------------------------------------------------
// Lines
// ---------------------------------------------------------------------
/// Index of the first `'\n'` at or after `i`, or `s.len()`.
pub open spec fn next_nl(s: Seq<char>, i: int) -> int
    decreases s.len() - i,
{
    if i < 0 || i >= s.len() {
        s.len() as int
    } else if s[i] == '\n' {
        i
    } else {
        next_nl(s, i + 1)
    }
}

pub proof fn lemma_next_nl_bounds(s: Seq<char>, i: int)
    requires
        0 <= i <= s.len(),
    ensures
        i <= next_nl(s, i) <= s.len(),
        next_nl(s, i) < s.len() ==> s[next_nl(s, i)] == '\n',
    decreases s.len() - i,
{
    if i < s.len() && s[i] != '\n' {
        lemma_next_nl_bounds(s, i + 1);
    }
}

/// End of the line content that starts at `i` (excludes `"\n"` / `"\r\n"`).
pub open spec fn line_end(s: Seq<char>, i: int) -> int {
    let e = next_nl(s, i);
    if e < s.len() && e > i && s[e - 1] == '\r' {
        e - 1
    } else {
        e
    }
}

/// `str::lines` starting from index `i`.
pub open spec fn lines_from(s: Seq<char>, i: int) -> Seq<Seq<char>>
    decreases s.len() - i,
{
    if i < 0 || i >= s.len() {
        Seq::empty()
    } else {
        let e = next_nl(s, i);
        if i <= e < s.len() {
            seq![s.subrange(i, line_end(s, i))] + lines_from(s, e + 1)
        } else {
            seq![s.subrange(i, line_end(s, i))]
        }
    }
}

/// `str::lines`: split at `'\n'`, dropping one `'\r'` right before it;
/// a final line terminator does not start an empty line.
pub open spec fn spec_lines(s: Seq<char>) -> Seq<Seq<char>> {
    lines_from(s, 0)
}

/// Each line takes at least one char, so there are no more lines than
/// chars.
pub proof fn lemma_lines_from_len(s: Seq<char>, i: int)
    requires
        0 <= i <= s.len(),
    ensures
        lines_from(s, i).len() <= s.len() - i,
    decreases s.len() - i,
{
    if i < s.len() {
        lemma_next_nl_bounds(s, i);
        let e = next_nl(s, i);
        if e < s.len() {
            lemma_lines_from_len(s, e + 1);
        }
    }
}

/// The lines of `s`, each as its own char vector.
pub fn split_lines(s: &[char]) -> (r: Vec<Vec<char>>)
    ensures
        r@.len() == spec_lines(s@).len(),
        forall|k: int| 0 <= k < r@.len() ==> (#[trigger] r@[k])@ == spec_lines(s@)[k],
{
    let n = s.len();
    let mut r: Vec<Vec<char>> = Vec::new();
    let mut i: usize = 0;
    let ghost done: Seq<Seq<char>> = Seq::empty();
    while i < n
        invariant
            0 <= i <= n,
            n == s@.len(),
            r@.len() == done.len(),
            forall|k: int| 0 <= k < r@.len() ==> (#[trigger] r@[k])@ == done[k],
            done + lines_from(s@, i as int) == spec_lines(s@),
        decreases n - i,
    {
        let mut e = i;
        while e < n && s[e] != '\n'
            invariant
                i <= e <= n,
                n == s@.len(),
                next_nl(s@, e as int) == next_nl(s@, i as int),
            decreases n - e,
        {
            e += 1;
        }
        let end = if e < n && e > i && s[e - 1] == '\r' {
            e - 1
        } else {
            e
        };
        let line = sub_chars(s, i, end);
        proof {
            lemma_next_nl_bounds(s@, i as int);
            let l = s@.subrange(i as int, end as int);
            assert(lines_from(s@, i as int) == seq![l] + lines_from(s@, e + 1));
            assert(done.push(l) + lines_from(s@, e + 1) == done + lines_from(s@, i as int));
            done = done.push(l);
        }
        r.push(line);
        if e < n {
            i = e + 1;
        } else {
            i = n;
        }
    }
    proof {
        assert(lines_from(s@, n as int) == Seq::<Seq<char>>::empty());
        assert(done + Seq::<Seq<char>>::empty() == done);
    }
    r
}

// ---------------------------------------------------------------------
// ASCII case folding and prefixes
// ---------------------------------------------------------------------
pub open spec fn ascii_lower(c: char) -> char {
    if 'A' <= c && c <= 'Z' {
        ((c as u32) + 32) as char
    } else {
        c
    }
}

pub fn char_ascii_lower(c: char) -> (r: char)
    ensures
        r == ascii_lower(c),
{
    if 'A' <= c && c <= 'Z' {
        let v: u32 = (c as u32) + 32;
        assert(v <= 0x7a);
        // an ASCII code point is always a valid char
        let r = (v as u8) as char;
        r
    } else {
        c
    }
}

/// `eq_ignore_ascii_case` on two char sequences.
pub open spec fn eq_ci(a: Seq<char>, b: Seq<char>) -> bool {
    a.len() == b.len() && forall|k: int| 0 <= k < a.len() ==> ascii_lower(a[k]) == ascii_lower(
        b[k],
    )
}

/// `s` starts with `p`, ignoring ASCII case.
pub open spec fn starts_with_ci(s: Seq<char>, p: Seq<char>) -> bool {
    s.len() >= p.len() && eq_ci(s.subrange(0, p.len() as int), p)
}

pub fn has_prefix_ci(s: &[char], p: &[char]) -> (b: bool)
    ensures
        b == starts_with_ci(s@, p@),
{
    if s.len() < p.len() {
        return false;
    }
    let mut k: usize = 0;
    while k < p.len()
        invariant
            0 <= k <= p@.len(),
            p@.len() <= s@.len(),
            forall|j: int| 0 <= j < k ==> ascii_lower(s@[j]) == ascii_lower(p@[j]),
        decreases p@.len() - k,
    {
        if char_ascii_lower(s[k]) != char_ascii_lower(p[k]) {
            assert(s@.subrange(0, p@.len() as int)[k as int] == s@[k as int]);
            return false;
        }
        k += 1;
    }
    assert forall|j: int| 0 <= j < p@.len() implies ascii_lower(
        s@.subrange(0, p@.len() as int)[j],
    ) == ascii_lower(p@[j]) by {}
    true
}

/// `s` starts with `p` exactly.
pub open spec fn starts_with(s: Seq<char>, p: Seq<char>) -> bool {
    s.len() >= p.len() && s.subrange(0, p.len() as int) == p
}

pub fn has_prefix(s: &[char], p: &[char]) -> (b: bool)
    ensures
        b == starts_with(s@, p@),
{
    if s.len() < p.len() {
        return false;
    }
    let mut k: usize = 0;
    while k < p.len()
        invariant
            0 <= k <= p@.len(),
            p@.len() <= s@.len(),
            forall|j: int| 0 <= j < k ==> s@[j] == p@[j],
        decreases p@.len() - k,
    {
        if s[k] != p[k] {
            assert(s@.subrange(0, p@.len() as int)[k as int] == s@[k as int]);
            return false;
        }
        k += 1;
    }
    assert(s@.subrange(0, p@.len() as int) =~= p@);
    true
}

/// Exact equality of two char slices.
pub fn chars_eq(a: &[char], b: &[char]) -> (r: bool)
    ensures
        r == (a@ == b@),
{
    if a.len() != b.len() {
        return false;
    }
    let r = has_prefix(a, b);
    assert(a@.subrange(0, b@.len() as int) =~= a@);
    r
}

/// `str::to_lowercase` (full Unicode lowercase mapping).
pub uninterp spec fn unicode_lowercase(s: Seq<char>) -> Seq<char>;

/// Calls `str::to_lowercase`. The contract names its result by
/// `unicode_lowercase`: the mapping depends on the input alone and is
/// the Unicode lowercase mapping that std documents; beyond the ASCII
/// case (an ASCII string maps `A`-`Z` to `a`-`z` and keeps every other
/// character), no clause restates that table.
#[verifier::external_body]
pub(crate) fn lowercase_str(s: &str) -> (r: String)
    ensures
        r@ == unicode_lowercase(s@),
        vstd::utf8::is_ascii_chars(s@) ==> r@ == s@.map_values(|c: char| ascii_lower(c)),
{
    s.to_lowercase()
}

// ---------------------------------------------------------------------
// Integers
// ---------------------------------------------------------------------
pub open spec fn is_digit(c: char) -> bool {
    '0' <= c && c <= '9'
}

pub open spec fn digit_val(c: char) -> int {
    (c as int) - ('0' as int)
}

pub open spec fn all_digits(s: Seq<char>) -> bool {
    forall|k: int| 0 <= k < s.len() ==> is_digit(#[trigger] s[k])
}

/// Decimal value of a digit string (most significant first).
pub open spec fn digits_value(s: Seq<char>) -> int
    decreases s.len(),
{
    if s.len() == 0 {
        0
    } else {
        digits_value(s.drop_last()) * 10 + digit_val(s.last())
    }
}

/// `FromStr` for integers: an optional `+` or `-` followed by one or
/// more ASCII digits, nothing else.
pub open spec fn spec_parse_int(s: Seq<char>) -> Option<int> {
    if s.len() > 0 && (s[0] == '+' || s[0] == '-') {
        let d = s.drop_first();
        if d.len() > 0 && all_digits(d) {
            Some(
                if s[0] == '-' {
                    -digits_value(d)
                } else {
                    digits_value(d)
                },
            )
        } else {
            None
        }
    } else if s.len() > 0 && all_digits(s) {
        Some(digits_value(s))
    } else {
        None
    }
}

/// `str::parse::<i32>`.
pub open spec fn spec_parse_i32(s: Seq<char>) -> Option<i32> {
    match spec_parse_int(s) {
        Some(v) => if i32::MIN <= v <= i32::MAX {
            Some(v as i32)
        } else {
            None
        },
        None => None,
    }
}

/// `str::parse::<u32>`.
/// A leading `-` is an invalid digit for unsigned types.
pub open spec fn spec_parse_u32(s: Seq<char>) -> Option<u32> {
    if s.len() > 0 && s[0] == '-' {
        None
    } else {
        match spec_parse_int(s) {
            Some(v) => if 0 <= v <= u32::MAX {
                Some(v as u32)
            } else {
                None
            },
            None => None,
        }
    }
}

pub const DIGITS_CAP: u64 = 0x2_0000_0000;

pub proof fn lemma_digits_value_nonneg(s: Seq<char>)
    requires
        all_digits(s),
    ensures
        digits_value(s) >= 0,
    decreases s.len(),
{
    if s.len() > 0 {
        assert(all_digits(s.drop_last())) by {
            assert forall|k: int| 0 <= k < s.drop_last().len() implies is_digit(
                #[trigger] s.drop_last()[k],
            ) by {
                assert(s.drop_last()[k] == s[k]);
            }
        }
        lemma_digits_value_nonneg(s.drop_last());
        assert(is_digit(s[s.len() - 1]));
    }
}

/// Parses `s[lo..]` as a digit run; returns `None` when a non-digit occurs
/// or the run is empty, else the value capped at `DIGITS_CAP`.
fn digits_capped(s: &[char], lo: usize) -> (r: Option<u64>)
    requires
        lo <= s@.len(),
    ensures
        r is Some <==> (s@.len() > lo && all_digits(s@.subrange(lo as int, s@.len() as int))),
        r matches Some(v) ==> {
            &&& digits_value(s@.subrange(lo as int, s@.len() as int)) >= 0
            &&& v as int == if digits_value(s@.subrange(lo as int, s@.len() as int))
                < DIGITS_CAP {
                digits_value(s@.subrange(lo as int, s@.len() as int))
            } else {
                DIGITS_CAP as int
            }
        },
{
    let n = s.len();
    if n == lo {
        return None;
    }
    let mut acc: u64 = 0;
    let mut i = lo;
    while i < n
        invariant
            lo <= i <= n,
            n == s@.len(),
            all_digits(s@.subrange(lo as int, i as int)),
            digits_value(s@.subrange(lo as int, i as int)) >= 0,
            acc as int == if digits_value(s@.subrange(lo as int, i as int)) < DIGITS_CAP {
                digits_value(s@.subrange(lo as int, i as int))
            } else {
                DIGITS_CAP as int
            },
        decreases n - i,
    {
        let c = s[i];
        if !('0' <= c && c <= '9') {
            proof {
                let t = s@.subrange(lo as int, n as int);
                assert(t[i - lo] == c);
            }
            return None;
        }
        let d: u64 = (c as u32 - '0' as u32) as u64;
        let ghost pre = s@.subrange(lo as int, i as int);
        let ghost nxt = s@.subrange(lo as int, i + 1);
        proof {
            assert(nxt.drop_last() =~= pre);
            assert(nxt.last() == c);
            assert(all_digits(nxt)) by {
                assert forall|k: int| 0 <= k < nxt.len() implies is_digit(#[trigger] nxt[k]) by {
                    if k < pre.len() {
                        assert(nxt[k] == pre[k]);
                    }
                }
            }
        }
        if acc >= DIGITS_CAP {
            acc = DIGITS_CAP;
        } else {
            let v = acc * 10 + d;
            acc = if v >= DIGITS_CAP {
                DIGITS_CAP
            } else {
                v
            };
        }
        i += 1;
    }
    Some(acc)
}



pub open spec fn pow10(n: nat) -> int
    decreases n,
{
    if n == 0 {
        1
    } else {
        10 * pow10((n - 1) as nat)
    }
}

/// A digit run of length `n` is below `10^n`.
pub proof fn lemma_digits_value_le(s: Seq<char>)
    requires
        all_digits(s),
    ensures
        0 <= digits_value(s) < pow10(s.len()),
    decreases s.len(),
{
    if s.len() > 0 {
        assert(all_digits(s.drop_last())) by {
            assert forall|k: int| 0 <= k < s.drop_last().len() implies is_digit(
                #[trigger] s.drop_last()[k],
            ) by {
                assert(s.drop_last()[k] == s[k]);
            }
        }
        lemma_digits_value_le(s.drop_last());
        assert(is_digit(s[s.len() - 1]));
    }
}

/// A non-empty ASCII digit run: its value capped at `DIGITS_CAP`.
pub open spec fn spec_digits_capped(s: Seq<char>) -> Option<u64> {
    if s.len() > 0 && all_digits(s) {
        Some(
            if digits_value(s) < DIGITS_CAP {
                digits_value(s) as u64
            } else {
                DIGITS_CAP
            },
        )
    } else {
        None
    }
}

pub fn parse_digits(s: &[char]) -> (r: Option<u64>)
    ensures
        r == spec_digits_capped(s@),
        r is Some ==> digits_value(s@) >= 0,
{
    let r = digits_capped(s, 0);
    assert(s@.subrange(0, s@.len() as int) =~= s@);
    r
}

/// Sign and capped magnitude of `spec_parse_int`.
fn parse_int_capped(s: &[char]) -> (r: Option<(bool, u64)>)
    ensures
        r is Some <==> spec_parse_int(s@) is Some,
        r matches Some((neg, v)) ==> {
            let m = if neg {
                -spec_parse_int(s@).unwrap()
            } else {
                spec_parse_int(s@).unwrap()
            };
            &&& m >= 0
            &&& neg == (s@.len() > 0 && s@[0] == '-')
            &&& v as int == if m < DIGITS_CAP {
                m
            } else {
                DIGITS_CAP as int
            }
        },
{
    if s.len() > 0 && (s[0] == '+' || s[0] == '-') {
        let neg = s[0] == '-';
        let r = digits_capped(s, 1);
        proof {
            assert(s@.subrange(1, s@.len() as int) =~= s@.drop_first());
        }
        match r {
            Some(v) => Some((neg, v)),
            None => None,
        }
    } else {
        let r = digits_capped(s, 0);
        proof {
            assert(s@.subrange(0, s@.len() as int) =~= s@);
        }
        match r {
            Some(v) => Some((false, v)),
            None => None,
        }
    }
}

/// `str::parse::<i32>` on a char slice.
pub fn parse_i32(s: &[char]) -> (r: Option<i32>)
    ensures
        r == spec_parse_i32(s@),
{
    match parse_int_capped(s) {
        None => None,
        Some((neg, v)) => {
            if neg {
                if v <= 0x8000_0000 {
                    Some((0 - (v as i64)) as i32)
                } else {
                    None
                }
            } else {
                if v <= 0x7fff_ffff {
                    Some(v as i32)
                } else {
                    None
                }
            }
        },
    }
}

/// `str::parse::<u32>` on a char slice.
pub fn parse_u32(s: &[char]) -> (r: Option<u32>)
    ensures
        r == spec_parse_u32(s@),
{
    match parse_int_capped(s) {
        None => None,
        Some((neg, v)) => {
            if neg {
                None
            } else {
                if v <= 0xffff_ffff {
                    Some(v as u32)
                } else {
                    None
                }
            }
        },
    }
}

// ---------------------------------------------------------------------
// Decimal and hexadecimal output
// ---------------------------------------------------------------------
pub open spec fn digit_char(d: int) -> char {
    ((d + 48) as u32) as char
}

/// Decimal digits of `n`, as `Display` writes them.
pub open spec fn dec_str(n: nat) -> Seq<char>
    decreases n,
{
    if n < 10 {
        seq![digit_char(n as int)]
    } else {
        dec_str(n / 10).push(digit_char((n % 10) as int))
    }
}

/// A decimal digit's char is a digit of that value.
pub proof fn lemma_digit_char(d: int)
    requires
        0 <= d < 10,
    ensures
        is_digit(digit_char(d)),
        digit_val(digit_char(d)) == d,
{
    let x: u32 = (d + 48) as u32;
    assert(x as int == d + 48);
    assert((x as char) as int == x as int);
}

/// The decimal digits of `n` are a non-empty digit run of value `n`.
pub proof fn lemma_dec_str_digits(n: nat)
    ensures
        dec_str(n).len() > 0,
        all_digits(dec_str(n)),
        digits_value(dec_str(n)) == n,
    decreases n,
{
    if n < 10 {
        lemma_digit_char(n as int);
        assert(dec_str(n).drop_last() =~= Seq::<char>::empty());
        assert(digits_value(dec_str(n)) == digits_value(dec_str(n).drop_last()) * 10 + digit_val(
            dec_str(n).last(),
        ));
    } else {
        lemma_dec_str_digits(n / 10);
        lemma_digit_char((n % 10) as int);
        let s = dec_str(n);
        assert(s.drop_last() =~= dec_str(n / 10));
        assert forall|k: int| 0 <= k < s.len() implies is_digit(#[trigger] s[k]) by {
            if k < s.len() - 1 {
                assert(s[k] == dec_str(n / 10)[k]);
            }
        }
        assert(s.last() == digit_char((n % 10) as int));
        assert(digits_value(s) == digits_value(s.drop_last()) * 10 + digit_val(s.last()));
        assert((n / 10) * 10 + n % 10 == n);
    }
}

/// Append the decimal form of `n`.
pub fn push_decimal(out: &mut String, n: u64)
    ensures
        final(out)@ == old(out)@ + dec_str(n as nat),
    decreases n,
{
    if n >= 10 {
        push_decimal(out, n / 10);
    }
    let d = (n % 10) as u8;
    let c = (d + 48) as char;
    proof {
        assert(c == digit_char((n % 10) as int));
    }
    string_push(out, c);
    proof {
        if n >= 10 {
            assert(dec_str(n as nat) == dec_str((n / 10) as nat).push(c));
        }
    }
}

pub open spec fn hex_upper(d: int) -> char {
    if d < 10 {
        digit_char(d)
    } else {
        ((d - 10 + 65) as u32) as char
    }
}

/// `{:02X}` of a byte.
pub open spec fn hex2(b: u8) -> Seq<char> {
    seq![hex_upper((b / 16) as int), hex_upper((b % 16) as int)]
}

fn hex_digit(d: u8) -> (c: char)
    requires
        d < 16,
    ensures
        c == hex_upper(d as int),
{
    if d < 10 {
        (d + 48) as char
    } else {
        (d - 10 + 65) as char
    }
}

/// Append `{:02X}` of `b`.
pub fn push_hex2(out: &mut String, b: u8)
    ensures
        final(out)@ == old(out)@ + hex2(b),
{
    let hi = hex_digit(b / 16);
    let lo = hex_digit(b % 16);
    string_push(out, hi);
    string_push(out, lo);
    assert(old(out)@.push(hi).push(lo) =~= old(out)@ + hex2(b));
}


// ---------------------------------------------------------------------
// Separators
// ---------------------------------------------------------------------
/// Index of the first `c` at or after `i`, or `s.len()`.
pub open spec fn next_of(s: Seq<char>, c: char, i: int) -> int
    decreases s.len() - i,
{
    if i < 0 || i >= s.len() {
        s.len() as int
    } else if s[i] == c {
        i
    } else {
        next_of(s, c, i + 1)
    }
}

pub proof fn lemma_next_of_bounds(s: Seq<char>, c: char, i: int)
    requires
        0 <= i <= s.len(),
    ensures
        i <= next_of(s, c, i) <= s.len(),
        next_of(s, c, i) < s.len() ==> s[next_of(s, c, i)] == c,
        forall|k: int| i <= k < next_of(s, c, i) ==> s[k] != c,
    decreases s.len() - i,
{
    if i < s.len() && s[i] != c {
        lemma_next_of_bounds(s, c, i + 1);
    }
}

/// First index of `c` in `s[i..]`, or `s.len()`.
pub fn find_char(s: &[char], c: char, i: usize) -> (r: usize)
    requires
        i <= s@.len(),
    ensures
        r == next_of(s@, c, i as int),
        i <= r <= s@.len(),
{
    proof {
        lemma_next_of_bounds(s@, c, i as int);
    }
    let mut k = i;
    while k < s.len() && s[k] != c
        invariant
            i <= k <= s@.len(),
            next_of(s@, c, k as int) == next_of(s@, c, i as int),
        decreases s@.len() - k,
    {
        k += 1;
    }
    k
}

/// `str::splitn(n, ',')`-style split: at most `n` pieces, the last one
/// holding the rest of the input (commas included).
pub open spec fn split_n(s: Seq<char>, sep: char, n: nat) -> Seq<Seq<char>>
    decreases n,
{
    let c = next_of(s, sep, 0);
    if n <= 1 || c >= s.len() {
        seq![s]
    } else {
        seq![s.subrange(0, c)] + split_n(s.subrange(c + 1, s.len() as int), sep, (n - 1) as nat)
    }
}

/// `str::split(sep)`: every piece between separators.
pub open spec fn split_all(s: Seq<char>, sep: char) -> Seq<Seq<char>>
    decreases s.len(),
{
    let c = next_of(s, sep, 0);
    if c >= s.len() {
        seq![s]
    } else {
        proof {
            lemma_next_of_bounds(s, sep, 0);
        }
        seq![s.subrange(0, c)] + split_all(s.subrange(c + 1, s.len() as int), sep)
    }
}

/// Pieces of `split_n(s, sep, n)`.
pub fn split_n_chars(s: &[char], sep: char, n: usize) -> (r: Vec<Vec<char>>)
    ensures
        r@.len() == split_n(s@, sep, n as nat).len(),
        forall|k: int| 0 <= k < r@.len() ==> (#[trigger] r@[k])@ == split_n(s@, sep, n as nat)[k],
{
    let mut r: Vec<Vec<char>> = Vec::new();
    let mut rest: Vec<char> = sub_chars(s, 0, s.len());
    let mut left: usize = n;
    let ghost done: Seq<Seq<char>> = Seq::empty();
    assert(rest@ =~= s@);
    assert(done + split_n(rest@, sep, left as nat) =~= split_n(s@, sep, n as nat));
    loop
        invariant
            r@.len() == done.len(),
            forall|k: int| 0 <= k < r@.len() ==> (#[trigger] r@[k])@ == done[k],
            done + split_n(rest@, sep, left as nat) == split_n(s@, sep, n as nat),
        decreases left,
    {
        let c = find_char(rest.as_slice(), sep, 0);
        if left <= 1 || c >= rest.len() {
            proof {
                assert(split_n(rest@, sep, left as nat) == seq![rest@]);
                assert(done.push(rest@) == done + split_n(rest@, sep, left as nat));
            }
            r.push(rest);
            return r;
        }
        let piece = sub_chars(rest.as_slice(), 0, c);
        let tail = sub_chars(rest.as_slice(), c + 1, rest.len());
        proof {
            assert(split_n(rest@, sep, left as nat) == seq![piece@] + split_n(
                tail@,
                sep,
                (left - 1) as nat,
            ));
            assert(done.push(piece@) + split_n(tail@, sep, (left - 1) as nat) == done + split_n(
                rest@,
                sep,
                left as nat,
            ));
            done = done.push(piece@);
        }
        r.push(piece);
        rest = tail;
        left = left - 1;
    }
}

/// Pieces of `split_all(s, sep)`.
pub fn split_all_chars(s: &[char], sep: char) -> (r: Vec<Vec<char>>)
    ensures
        r@.len() == split_all(s@, sep).len(),
        forall|k: int| 0 <= k < r@.len() ==> (#[trigger] r@[k])@ == split_all(s@, sep)[k],
{
    let mut r: Vec<Vec<char>> = Vec::new();
    let mut rest: Vec<char> = sub_chars(s, 0, s.len());
    let ghost done: Seq<Seq<char>> = Seq::empty();
    assert(rest@ =~= s@);
    assert(done + split_all(rest@, sep) =~= split_all(s@, sep));
    loop
        invariant
            r@.len() == done.len(),
            forall|k: int| 0 <= k < r@.len() ==> (#[trigger] r@[k])@ == done[k],
            done + split_all(rest@, sep) == split_all(s@, sep),
        decreases rest@.len(),
    {
        let c = find_char(rest.as_slice(), sep, 0);
        if c >= rest.len() {
            proof {
                assert(split_all(rest@, sep) == seq![rest@]);
                assert(done.push(rest@) == done + split_all(rest@, sep));
            }
            r.push(rest);
            return r;
        }
        let piece = sub_chars(rest.as_slice(), 0, c);
        let tail = sub_chars(rest.as_slice(), c + 1, rest.len());
        proof {
            assert(split_all(rest@, sep) == seq![piece@] + split_all(tail@, sep));
            assert(done.push(piece@) + split_all(tail@, sep) == done + split_all(rest@, sep));
            done = done.push(piece@);
        }
        r.push(piece);
        rest = tail;
    }
}

/// `format!("{:?}", s)` for a string: quoted and escaped as `Debug` does.
pub uninterp spec fn debug_str(s: Seq<char>) -> Seq<char>;

/// Calls `format!("{:?}", s)`. The contract names the result by
/// `debug_str`, a function of the text alone; the escaping rules std
/// applies are not restated.
#[verifier::external_body]
pub(crate) fn debug_quoted(s: &str) -> (r: String)
    ensures
        r@ == debug_str(s@),
{
    format!("{:?}", s)
}

/// The views of a vector of char vectors.
pub open spec fn views_of(v: Seq<Vec<char>>) -> Seq<Seq<char>> {
    v.map_values(|x: Vec<char>| x@)
}

/// The views of a slice of string slices.
pub open spec fn str_views(v: Seq<&str>) -> Seq<Seq<char>> {
    v.map_values(|x: &str| x@)
}

/// Each string slice as a char vector.
pub fn lines_of(lines: &[&str]) -> (r: Vec<Vec<char>>)
    ensures
        views_of(r@) == str_views(lines@),
{
    let mut r: Vec<Vec<char>> = Vec::new();
    let mut i: usize = 0;
    while i < lines.len()
        invariant
            0 <= i <= lines@.len(),
            r@.len() == i,
            forall|k: int| 0 <= k < i ==> (#[trigger] r@[k])@ == lines@[k]@,
        decreases lines@.len() - i,
    {
        let v = str_chars(lines[i]);
        r.push(v);
        i += 1;
    }
    assert(views_of(r@) =~= str_views(lines@));
    r
}

/// First byte of the UTF-8 encoding of `c`.
pub open spec fn utf8_lead(c: char) -> u8 {
    let v = c as u32;
    if v < 0x80 {
        v as u8
    } else if v < 0x800 {
        (0xC0 + v / 64) as u8
    } else if v < 0x1_0000 {
        (0xE0 + v / 4096) as u8
    } else {
        (0xF0 + v / 262144) as u8
    }
}

pub fn char_utf8_lead(c: char) -> (b: u8)
    ensures
        b == utf8_lead(c),
{
    let v = c as u32;
    if v < 0x80 {
        v as u8
    } else if v < 0x800 {
        (0xC0 + v / 64) as u8
    } else if v < 0x1_0000 {
        (0xE0 + v / 4096) as u8
    } else {
        (0xF0 + v / 262144) as u8
    }
}

} // verus!
