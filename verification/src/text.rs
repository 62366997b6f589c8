//! Text handling: the characters of a string, splitting at a separator, and
//! reading a decimal `i32` the way `str::parse::<i32>` does.
use vstd::prelude::*;

verus! {

/// The characters of a string.
pub fn chars_of(s: &str) -> (r: Vec<char>)
    ensures
        r@ == s@,
{
    let n = s.unicode_len();
    let mut r: Vec<char> = Vec::new();
    let mut i: usize = 0;
    while i < n
        invariant
            n == s@.len(),
            i <= n,
            r@ == s@.subrange(0, i as int),
        decreases n - i,
    {
        r.push(s.get_char(i));
        i = i + 1;
        proof {
            assert(r@ =~= s@.subrange(0, i as int));
        }
    }
    proof {
        assert(r@ =~= s@);
    }
    r
}

/// The pieces of `s` between occurrences of `sep`, as `str::split` gives
/// them: `n` separators give `n + 1` pieces, some of them possibly empty.
pub open spec fn split_on(s: Seq<char>, sep: char) -> Seq<Seq<char>>
    decreases s.len(),
{
    if s.len() == 0 {
        seq![Seq::empty()]
    } else {
        let prev = split_on(s.drop_last(), sep);
        if s.last() == sep {
            prev.push(Seq::empty())
        } else {
            prev.update(prev.len() - 1, prev.last().push(s.last()))
        }
    }
}

pub open spec fn is_digit(c: char) -> bool {
    '0' <= c && c <= '9'
}

/// The value of a string of decimal digits.
pub open spec fn digits_value(d: Seq<char>) -> int
    decreases d.len(),
{
    if d.len() == 0 {
        0
    } else {
        digits_value(d.drop_last()) * 10 + (d.last() as int - '0' as int)
    }
}

/// Every character is a decimal digit.
pub open spec fn all_digits(d: Seq<char>) -> bool {
    forall|i: int| 0 <= i < d.len() ==> is_digit(#[trigger] d[i])
}

/// The string without a leading `+` or `-`.
pub open spec fn unsigned_part(s: Seq<char>) -> Seq<char> {
    if s.len() > 0 && (s[0] == '-' || s[0] == '+') {
        s.skip(1)
    } else {
        s
    }
}

/// `str::parse::<i32>`: an optional `+` or `-` followed by one or more
/// decimal digits, whose value fits in an `i32`.
pub open spec fn parse_i32_spec(s: Seq<char>) -> Option<i32> {
    let digits = unsigned_part(s);
    if digits.len() == 0 || !all_digits(digits) {
        None
    } else {
        let v = if s[0] == '-' {
            -digits_value(digits)
        } else {
            digits_value(digits)
        };
        if i32::MIN <= v <= i32::MAX {
            Some(v as i32)
        } else {
            None
        }
    }
}

/// Appending digits never lowers the value.
pub proof fn lemma_digits_value_grows(d: Seq<char>, k: int)
    requires
        0 <= k <= d.len(),
        forall|i: int| 0 <= i < d.len() ==> is_digit(#[trigger] d[i]),
    ensures
        digits_value(d.subrange(0, k)) <= digits_value(d),
        0 <= digits_value(d.subrange(0, k)),
    decreases d.len() - k,
{
    if k == d.len() {
        assert(d.subrange(0, k) =~= d);
        lemma_digits_value_nonneg(d);
    } else {
        lemma_digits_value_grows(d, k + 1);
        let p = d.subrange(0, k + 1);
        assert(p.drop_last() =~= d.subrange(0, k));
        assert(is_digit(p.last()));
        lemma_digits_value_nonneg(d.subrange(0, k));
    }
}

/// Every non-empty string of the decimal digits `0` to `9` whose value fits
/// in an `i32` reads as that value, and with a leading `-` as its negation;
/// in particular each single digit `c` reads as `c - '0'`.
pub proof fn lemma_decimal_strings_parse(d: Seq<char>)
    requires
        d.len() > 0,
        forall|i: int| 0 <= i < d.len() ==> '0' <= #[trigger] d[i] <= '9',
    ensures
        digits_value(d) <= i32::MAX ==> parse_i32_spec(d) == Some(digits_value(d) as i32),
        -digits_value(d) >= i32::MIN ==> parse_i32_spec(seq!['-'] + d) == Some(
            (-digits_value(d)) as i32,
        ),
        d.len() == 1 ==> parse_i32_spec(d) == Some((d[0] as int - '0' as int) as i32),
{
    assert(all_digits(d));
    lemma_digits_value_nonneg(d);
    assert(unsigned_part(d) == d);
    let m = seq!['-'] + d;
    assert(m.skip(1) =~= d);
    assert(unsigned_part(m) == d);
    if d.len() == 1 {
        assert(d.drop_last() =~= Seq::<char>::empty());
        assert(digits_value(d.drop_last()) == 0);
        assert(d.last() == d[0]);
        assert(digits_value(d) == d[0] as int - '0' as int);
    }
}

proof fn lemma_digits_value_nonneg(d: Seq<char>)
    requires
        forall|i: int| 0 <= i < d.len() ==> is_digit(#[trigger] d[i]),
    ensures
        0 <= digits_value(d),
    decreases d.len(),
{
    if d.len() > 0 {
        lemma_digits_value_nonneg(d.drop_last());
        assert(is_digit(d[d.len() - 1]));
    }
}

/// Reads a decimal `i32` from `s` as `str::parse::<i32>` does.
pub fn parse_i32(s: &[char]) -> (r: Option<i32>)
    ensures
        r == parse_i32_spec(s@),
{
    let n = s.len();
    let start: usize = if n > 0 && (s[0] == '-' || s[0] == '+') {
        1
    } else {
        0
    };
    let negative = n > 0 && s[0] == '-';
    let ghost digits = if start == 1 {
        s@.skip(1)
    } else {
        s@
    };
    assert(digits =~= s@.subrange(start as int, n as int));
    if start == n {
        return None;
    }
    let mut acc: i64 = 0;
    let mut i: usize = start;
    while i < n
        invariant
            start <= i <= n,
            n == s@.len(),
            digits == s@.subrange(start as int, n as int),
            digits == unsigned_part(s@),
            negative == (s@.len() > 0 && s@[0] == '-'),
            digits.len() > 0,
            forall|j: int| 0 <= j < i - start ==> is_digit(#[trigger] digits[j]),
            acc == digits_value(digits.subrange(0, i - start)),
            0 <= acc <= 2147483648,
        decreases n - i,
    {
        let c = s[i];
        proof {
            assert(digits[(i - start) as int] == s@[i as int]);
        }
        if !('0' <= c && c <= '9') {
            proof {
                assert(!is_digit(digits[(i - start) as int]));
                assert(!all_digits(digits));
            }
            return None;
        }
        let d = (c as u32 - '0' as u32) as i64;
        let next = acc * 10 + d;
        proof {
            let p = digits.subrange(0, (i - start + 1) as int);
            assert(p.drop_last() =~= digits.subrange(0, (i - start) as int));
            assert(p.last() == c);
            assert(d == c as int - '0' as int);
            assert(next == digits_value(p));
        }
        acc = next;
        i = i + 1;
        if acc > 2147483648 {
            proof {
                if all_digits(digits) {
                    lemma_digits_value_grows(digits, (i - start) as int);
                    assert(digits_value(digits) > 2147483648);
                }
            }
            return None;
        }
    }
    proof {
        assert(digits.subrange(0, n - start) =~= digits);
    }
    if negative {
        Some((0 - acc) as i32)
    } else if acc > 2147483647 {
        None
    } else {
        Some(acc as i32)
    }
}

/// Splits `s` at every `sep`, as `str::split` does.
pub fn split_chars(s: &[char], sep: char) -> (r: Vec<Vec<char>>)
    ensures
        r@.map_values(|p: Vec<char>| p@) == split_on(s@, sep),
{
    let mut done: Vec<Vec<char>> = Vec::new();
    let mut current: Vec<char> = Vec::new();
    let mut i: usize = 0;
    proof {
        assert(s@.subrange(0, 0) =~= Seq::<char>::empty());
        assert(done@.map_values(|p: Vec<char>| p@).push(current@) =~= seq![Seq::<char>::empty()]);
    }
    while i < s.len()
        invariant
            i <= s@.len(),
            done@.map_values(|p: Vec<char>| p@).push(current@) == split_on(
                s@.subrange(0, i as int),
                sep,
            ),
        decreases s.len() - i,
    {
        let c = s[i];
        let ghost prev = split_on(s@.subrange(0, i as int), sep);
        proof {
            let t = s@.subrange(0, i + 1);
            assert(t.drop_last() =~= s@.subrange(0, i as int));
            assert(t.last() == c);
        }
        if c == sep {
            let ghost old_done = done@;
            let finished = current;
            done.push(finished);
            current = Vec::new();
            proof {
                assert(done@.map_values(|p: Vec<char>| p@) =~= old_done.map_values(
                    |p: Vec<char>| p@,
                ).push(finished@));
                assert(done@.map_values(|p: Vec<char>| p@).push(current@) =~= prev.push(
                    Seq::empty(),
                ));
            }
        } else {
            let ghost old_current = current@;
            current.push(c);
            proof {
                assert(done@.map_values(|p: Vec<char>| p@).push(current@) =~= prev.update(
                    prev.len() - 1,
                    prev.last().push(c),
                ));
            }
        }
        i = i + 1;
    }
    proof {
        assert(s@.subrange(0, s@.len() as int) =~= s@);
    }
    let ghost old_done = done@;
    done.push(current);
    proof {
        assert(done@.map_values(|p: Vec<char>| p@) =~= old_done.map_values(|p: Vec<char>| p@).push(
            current@,
        ));
    }
    done
}

} // verus!
