//! ASS timestamps (`H:MM:SS.CC`), held as whole milliseconds.
use crate::text::{
    find_char, next_of, parse_digits, push_decimal, spec_digits_capped, string_push, sub_chars,
    dec_str, digit_char, all_digits, digits_value, digit_val, is_digit, lemma_dec_str_digits,
    lemma_digit_char,
};
use vstd::prelude::*;

verus! {

/// Largest hour count a timestamp may carry.
pub const MAX_HOURS: u64 = 1_000_000;

/// A timestamp in milliseconds.
#[derive(Debug, Clone, Copy, PartialEq, Eq, Structural)]
pub struct Time {
    pub millis: u64,
}

/// Value of the fractional-second digits in milliseconds: one digit is
/// tenths, two are hundredths (the ASS form), three are milliseconds.
pub open spec fn frac_ms(frac: Seq<char>, v: int) -> int {
    if frac.len() == 1 {
        v * 100
    } else if frac.len() == 2 {
        v * 10
    } else {
        v
    }
}

/// `H:MM:SS[.F]`: three `:`-separated fields of ASCII digits, hours at
/// most `MAX_HOURS`, minutes and seconds below 60, and an optional
/// fraction of one to three digits.
pub open spec fn spec_parse_time(s: Seq<char>) -> Option<u64> {
    let c1 = next_of(s, ':', 0);
    let c2 = next_of(s, ':', c1 + 1);
    let c3 = next_of(s, ':', c2 + 1);
    if c1 >= s.len() || c2 >= s.len() || c3 < s.len() {
        None
    } else {
        let h = s.subrange(0, c1);
        let m = s.subrange(c1 + 1, c2);
        let rest = s.subrange(c2 + 1, s.len() as int);
        let dot = next_of(rest, '.', 0);
        let sec = rest.subrange(0, dot);
        let frac = if dot < rest.len() {
            rest.subrange(dot + 1, rest.len() as int)
        } else {
            Seq::empty()
        };
        match (spec_digits_capped(h), spec_digits_capped(m), spec_digits_capped(sec)) {
            (Some(hv), Some(mv), Some(sv)) => {
                if hv > MAX_HOURS || mv >= 60 || sv >= 60 {
                    None
                } else if dot < rest.len() {
                    match spec_digits_capped(frac) {
                        Some(fv) => if frac.len() <= 3 {
                            Some(
                                (((hv * 60 + mv) * 60 + sv) * 1000 + frac_ms(frac, fv as int)) as u64,
                            )
                        } else {
                            None
                        },
                        None => None,
                    }
                } else {
                    Some((((hv * 60 + mv) * 60 + sv) * 1000) as u64)
                }
            },
            _ => None,
        }
    }
}

/// `n` as at least two decimal digits.
pub open spec fn dec2(n: nat) -> Seq<char> {
    if n < 10 {
        seq!['0', digit_char(n as int)]
    } else {
        dec_str(n)
    }
}

/// `H:MM:SS.CC` (centiseconds truncated).
pub open spec fn spec_format_time(ms: u64) -> Seq<char> {
    dec_str((ms / 3_600_000) as nat) + seq![':'] + dec2(((ms / 60_000) % 60) as nat) + seq![':']
        + dec2(((ms / 1000) % 60) as nat) + seq!['.'] + dec2(((ms % 1000) / 10) as nat)
}

fn push_dec2(out: &mut String, n: u64)
    requires
        n < 100,
    ensures
        final(out)@ == old(out)@ + dec2(n as nat),
{
    if n < 10 {
        string_push(out, '0');
        let c = (n as u8 + 48) as char;
        string_push(out, c);
        assert(old(out)@.push('0').push(c) =~= old(out)@ + dec2(n as nat));
    } else {
        push_decimal(out, n);
    }
}

impl Time {
    pub fn from_millis(ms: u64) -> (t: Time)
        ensures
            t.millis == ms,
    {
        Time { millis: ms }
    }

    pub fn to_millis(&self) -> (ms: u64)
        ensures
            ms == self.millis,
    {
        self.millis
    }

    /// Parse an ASS timestamp.
    pub fn parse_chars(s: &[char]) -> (r: Option<Time>)
        ensures
            r matches Some(t) ==> spec_parse_time(s@) == Some(t.millis),
            r is None ==> spec_parse_time(s@) is None,
    {
        let c1 = find_char(s, ':', 0);
        if c1 >= s.len() {
            return None;
        }
        let c2 = find_char(s, ':', c1 + 1);
        if c2 >= s.len() {
            return None;
        }
        let c3 = find_char(s, ':', c2 + 1);
        if c3 < s.len() {
            return None;
        }
        let h = sub_chars(s, 0, c1);
        let m = sub_chars(s, c1 + 1, c2);
        let rest = sub_chars(s, c2 + 1, s.len());
        let dot = find_char(rest.as_slice(), '.', 0);
        let sec = sub_chars(rest.as_slice(), 0, dot);
        let hv = match parse_digits(h.as_slice()) {
            Some(v) => v,
            None => return None,
        };
        let mv = match parse_digits(m.as_slice()) {
            Some(v) => v,
            None => return None,
        };
        let sv = match parse_digits(sec.as_slice()) {
            Some(v) => v,
            None => return None,
        };
        if hv > MAX_HOURS || mv >= 60 || sv >= 60 {
            return None;
        }
        let base: u64 = ((hv * 60 + mv) * 60 + sv) * 1000;
        if dot < rest.len() {
            let frac = sub_chars(rest.as_slice(), dot + 1, rest.len());
            let fv = match parse_digits(frac.as_slice()) {
                Some(v) => v,
                None => return None,
            };
            if frac.len() > 3 {
                return None;
            }
            proof {
                crate::text::lemma_digits_value_le(frac@);
            }
            let f = if frac.len() == 1 {
                fv * 100
            } else if frac.len() == 2 {
                fv * 10
            } else {
                fv
            };
            Some(Time { millis: base + f })
        } else {
            Some(Time { millis: base })
        }
    }

    /// Format as `H:MM:SS.CC`.
    pub fn format(&self) -> (r: String)
        ensures
            r@ == spec_format_time(self.millis),
    {
        let ms = self.millis;
        let mut out = String::new();
        push_decimal(&mut out, ms / 3_600_000);
        string_push(&mut out, ':');
        push_dec2(&mut out, (ms / 60_000) % 60);
        string_push(&mut out, ':');
        push_dec2(&mut out, (ms / 1000) % 60);
        string_push(&mut out, '.');
        push_dec2(&mut out, (ms % 1000) / 10);
        out
    }
}

/// `next_of` stops at `k` when no char of `s[i..k]` is `c` and `k` is
/// the end or a `c`.
proof fn lemma_next_of_at(s: Seq<char>, c: char, i: int, k: int)
    requires
        0 <= i <= k <= s.len(),
        forall|j: int| i <= j < k ==> s[j] != c,
        k == s.len() || s[k] == c,
    ensures
        next_of(s, c, i) == k,
    decreases k - i,
{
    if i < k {
        lemma_next_of_at(s, c, i + 1, k);
    }
}

/// Two-digit fields are two digits of their value.
proof fn lemma_dec2(n: nat)
    requires
        n < 100,
    ensures
        dec2(n).len() == 2,
        all_digits(dec2(n)),
        digits_value(dec2(n)) == n,
{
    if n < 10 {
        lemma_digit_char(0);
        lemma_digit_char(n as int);
        let s = dec2(n);
        assert(s.drop_last() =~= seq![digit_char(0)]);
        assert(s.drop_last().drop_last() =~= Seq::<char>::empty());
        assert(digits_value(s.drop_last()) == digits_value(s.drop_last().drop_last()) * 10 + digit_val(
            s.drop_last().last(),
        ));
        assert(digits_value(s) == digits_value(s.drop_last()) * 10 + digit_val(s.last()));
    } else {
        lemma_dec_str_digits(n);
        assert(dec_str(n / 10) == seq![digit_char((n / 10) as int)]);
    }
}

/// Parsing a formatted timestamp gives back its milliseconds down to
/// the centisecond the format keeps.
pub proof fn lemma_format_then_parse(ms: u64)
    requires
        ms / 3_600_000 <= MAX_HOURS,
    ensures
        spec_parse_time(spec_format_time(ms)) == Some((ms - ms % 10) as u64),
{
    let h = (ms / 3_600_000) as nat;
    let m = ((ms / 60_000) % 60) as nat;
    let sec = ((ms / 1000) % 60) as nat;
    let cs = ((ms % 1000) / 10) as nat;
    let hs = dec_str(h);
    let mm = dec2(m);
    let ss = dec2(sec);
    let cc = dec2(cs);
    let s = spec_format_time(ms);
    lemma_dec_str_digits(h);
    lemma_dec2(m);
    lemma_dec2(sec);
    lemma_dec2(cs);
    let c1 = hs.len() as int;
    assert(s =~= hs + seq![':'] + mm + seq![':'] + ss + seq!['.'] + cc);
    assert forall|j: int| 0 <= j < c1 implies s[j] != ':' by {
        assert(s[j] == hs[j]);
        assert(is_digit(hs[j]));
    }
    lemma_next_of_at(s, ':', 0, c1);
    assert forall|j: int| c1 + 1 <= j < c1 + 3 implies s[j] != ':' by {
        assert(s[j] == mm[j - c1 - 1]);
        assert(is_digit(mm[j - c1 - 1]));
    }
    lemma_next_of_at(s, ':', c1 + 1, c1 + 3);
    assert forall|j: int| c1 + 4 <= j < s.len() implies s[j] != ':' by {
        if j < c1 + 6 {
            assert(s[j] == ss[j - c1 - 4]);
            assert(is_digit(ss[j - c1 - 4]));
        } else if j > c1 + 6 {
            assert(s[j] == cc[j - c1 - 7]);
            assert(is_digit(cc[j - c1 - 7]));
        }
    }
    lemma_next_of_at(s, ':', c1 + 4, s.len() as int);
    assert(s.subrange(0, c1) =~= hs);
    assert(s.subrange(c1 + 1, c1 + 3) =~= mm);
    let rest = s.subrange(c1 + 4, s.len() as int);
    assert(rest =~= ss + seq!['.'] + cc);
    assert forall|j: int| 0 <= j < 2 implies rest[j] != '.' by {
        assert(rest[j] == ss[j]);
        assert(is_digit(ss[j]));
    }
    lemma_next_of_at(rest, '.', 0, 2);
    assert(rest.subrange(0, 2) =~= ss);
    assert(rest.subrange(3, rest.len() as int) =~= cc);
    assert(h <= MAX_HOURS);
    assert(spec_digits_capped(hs) == Some(h as u64));
    assert(spec_digits_capped(mm) == Some(m as u64));
    assert(spec_digits_capped(ss) == Some(sec as u64));
    assert(spec_digits_capped(cc) == Some(cs as u64));
    assert(((h * 60 + m) * 60 + sec) * 1000 + cs * 10 == ms - ms % 10) by (nonlinear_arith)
        requires
            h == ms / 3_600_000,
            m == (ms / 60_000) % 60,
            sec == (ms / 1000) % 60,
            cs == (ms % 1000) / 10,
    ;
}

} // verus!
