use vstd::prelude::*;
use vstd::string::*;
use crate::scale::Scale;

verus! {

/// `c` is an ASCII decimal digit.
pub open spec fn is_digit(c: char) -> bool {
    '0' <= c <= '9'
}

/// Every character of `t` is a decimal digit.
pub open spec fn all_digits(t: Seq<char>) -> bool {
    forall|i: int| 0 <= i < t.len() ==> is_digit(#[trigger] t[i])
}

/// The number that a string of decimal digits writes.
pub open spec fn digits_value(t: Seq<char>) -> nat
    decreases t.len(),
{
    if t.len() == 0 {
        0
    } else {
        digits_value(t.drop_last()) * 10 + (t.last() as nat - '0' as nat) as nat
    }
}

/// A nonempty run of decimal digits whose value fits in a `u32`.
pub open spec fn valid_digits(t: Seq<char>) -> bool {
    t.len() > 0 && all_digits(t) && digits_value(t) <= u32::MAX
}

/// `t` without a leading `+`.
pub open spec fn unsigned(t: Seq<char>) -> Seq<char> {
    if t.len() > 0 && t[0] == '+' {
        t.skip(1)
    } else {
        t
    }
}

/// A number as written: an optional `+`, then a nonempty run of decimal
/// digits whose value fits in a `u32`.
pub open spec fn valid_number(t: Seq<char>) -> bool {
    valid_digits(unsigned(t))
}

/// The value of a number as written.
pub open spec fn number_value(t: Seq<char>) -> nat {
    digits_value(unsigned(t))
}

/// A character that is no digit, and stands after the start or is no `+`,
/// makes the text no number.
proof fn lemma_not_number(t: Seq<char>, p: int)
    requires
        0 <= p < t.len(),
        !is_digit(t[p]),
        p > 0 || t[p] != '+',
    ensures
        !valid_number(t),
{
    if t[0] == '+' {
        assert(unsigned(t)[p - 1] == t[p]);
    } else {
        assert(unsigned(t)[p] == t[p]);
    }
}

/// `s` is `WIDTHxHEIGHT` with the `x` at position `i`.
pub open spec fn dimension_at(s: Seq<char>, i: int) -> bool {
    &&& 0 <= i < s.len()
    &&& s[i] == 'x'
    &&& valid_number(s.take(i))
    &&& valid_number(s.skip(i + 1))
}

proof fn lemma_value_grows(t: Seq<char>, k: int)
    requires
        all_digits(t),
        0 <= k <= t.len(),
    ensures
        digits_value(t.take(k)) <= digits_value(t),
    decreases t.len() - k,
{
    if k < t.len() {
        lemma_value_grows(t, k + 1);
        assert(t.take(k + 1).drop_last() =~= t.take(k));
    } else {
        assert(t.take(k) =~= t);
    }
}

fn chars_of(s: &str) -> (r: Vec<char>)
    ensures
        r@ == s@,
{
    let n = s.unicode_len();
    let mut r: Vec<char> = Vec::new();
    let mut i: usize = 0;
    while i < n
        invariant
            i <= n,
            n == s@.len(),
            r@ == s@.take(i as int),
        decreases n - i,
    {
        r.push(s.get_char(i));
        i += 1;
        assert(r@ =~= s@.take(i as int));
    }
    assert(s@.take(n as int) =~= s@);
    r
}

/// The number written by the digits `s@[from..to]`, where they are valid.
fn parse_digits(s: &Vec<char>, from: usize, to: usize) -> (r: Option<u32>)
    requires
        from <= to <= s@.len(),
    ensures
        r is Some <==> valid_digits(s@.subrange(from as int, to as int)),
        r matches Some(v) ==> v == digits_value(s@.subrange(from as int, to as int)),
{
    let ghost t = s@.subrange(from as int, to as int);
    if from == to {
        return None;
    }
    let mut acc: u32 = 0;
    let mut i: usize = from;
    while i < to
        invariant
            from <= i <= to,
            to <= s@.len(),
            t == s@.subrange(from as int, to as int),
            all_digits(t.take(i - from)),
            acc == digits_value(t.take(i - from)),
        decreases to - i,
    {
        let c = s[i];
        let k = i - from;
        assert(t.take(k + 1).drop_last() =~= t.take(k as int));
        if c < '0' || c > '9' {
            assert(!is_digit(t[k as int]));
            return None;
        }
        let d = (c as u32) - ('0' as u32);
        if acc > (u32::MAX - d) / 10 {
            assert(all_digits(t.take(k + 1)));
            assert(digits_value(t.take(k + 1)) > u32::MAX);
            proof {
                if all_digits(t) {
                    lemma_value_grows(t, k + 1);
                }
            }
            return None;
        }
        acc = acc * 10 + d;
        i += 1;
    }
    assert(t.take(to - from) =~= t);
    Some(acc)
}

/// The number written by `s@[from..to]`, an optional `+` and then digits,
/// where that is a valid number.
fn parse_number(s: &Vec<char>, from: usize, to: usize) -> (r: Option<u32>)
    requires
        from <= to <= s@.len(),
    ensures
        r is Some <==> valid_number(s@.subrange(from as int, to as int)),
        r matches Some(v) ==> v == number_value(s@.subrange(from as int, to as int)),
{
    let ghost t = s@.subrange(from as int, to as int);
    if from < to && s[from] == '+' {
        assert(t.skip(1) =~= s@.subrange(from + 1, to as int));
        parse_digits(s, from + 1, to)
    } else {
        parse_digits(s, from, to)
    }
}

/// The position of the first `c` in `cs`, or its length where there is none.
fn find_char(cs: &Vec<char>, c: char) -> (r: usize)
    ensures
        r <= cs@.len(),
        forall|j: int| 0 <= j < r ==> cs@[j] != c,
        r < cs@.len() ==> cs@[r as int] == c,
{
    let mut i: usize = 0;
    while i < cs.len()
        invariant
            i <= cs@.len(),
            forall|j: int| 0 <= j < i ==> cs@[j] != c,
        decreases cs@.len() - i,
    {
        if cs[i] == c {
            return i;
        }
        i += 1;
    }
    i
}

/// Reads a dimension written `WIDTHxHEIGHT`: exactly two components, each a
/// number (an optional `+`, then decimal digits) that fits in a `u32`,
/// around a single `x`.
/// Anything else is not a dimension. Zero sides (`0x0`) are read as written:
/// the resize then yields an image with no pixels on that side.
pub fn parse_dimension(s: &str) -> (r: Option<Scale>)
    ensures
        r is None <==> !exists|i: int| dimension_at(s@, i),
        forall|i: int|
            dimension_at(s@, i) ==> r == Some(
                Scale::Dimension(
                    number_value(s@.take(i)) as u32,
                    number_value(s@.skip(i + 1)) as u32,
                ),
            ),
{
    let cs = chars_of(s);
    let n = cs.len();
    let i = find_char(&cs, 'x');
    if i == n {
        return None;
    }
    assert(s@[i as int] == 'x');
    assert(s@.subrange(0, i as int) =~= s@.take(i as int));
    assert(s@.subrange(i + 1, n as int) =~= s@.skip(i + 1));
    assert forall|j: int| dimension_at(s@, j) implies j == i by {
        if j > i {
            assert(s@.take(j)[i as int] == 'x');
            lemma_not_number(s@.take(j), i as int);
        }
    }
    let w = parse_number(&cs, 0, i);
    let h = parse_number(&cs, i + 1, n);
    match (w, h) {
        (Some(w), Some(h)) => {
            assert(dimension_at(s@, i as int));
            Some(Scale::Dimension(w, h))
        },
        _ => None,
    }
}

/// Ten to the power `k`.
pub open spec fn pow10(k: nat) -> nat
    decreases k,
{
    if k == 0 {
        1
    } else {
        10 * pow10((k - 1) as nat)
    }
}

/// The digits of `s` without the character at position `i`.
pub open spec fn without(s: Seq<char>, i: int) -> Seq<char> {
    s.take(i) + s.skip(i + 1)
}

/// A valid number other than zero.
pub open spec fn positive_number(t: Seq<char>) -> bool {
    valid_number(t) && number_value(t) > 0
}

/// `s` is `WHOLE.FRACTION` with the point at position `i`: the digits around
/// it, taken together, form a valid number above zero, and there are at most
/// nine fraction digits.
pub open spec fn ratio_at(s: Seq<char>, i: int) -> bool {
    &&& 0 <= i < s.len()
    &&& s[i] == '.'
    &&& positive_number(without(s, i))
    &&& s.len() - i - 1 <= 9
}

/// Reads a positive decimal scale factor such as `0.1`, `2` or `.25` as the
/// exact fraction it writes: the digits as numerator over a power of ten.
/// A leading `+` is read; a minus sign, an exponent and more than nine
/// fraction digits are not, and a factor of zero (`0`, `0.00`) is refused:
/// a scale factor is positive.
pub fn parse_ratio(s: &str) -> (r: Option<Scale>)
    ensures
        r is None <==> !(positive_number(s@) || exists|i: int| ratio_at(s@, i)),
        r matches Some(Scale::Ratio(n, d)) ==> n > 0 && d > 0,
        r matches Some(sc) ==> sc is Ratio,
        positive_number(s@) ==> r == Some(Scale::Ratio(number_value(s@) as u32, 1)),
        forall|i: int|
            ratio_at(s@, i) ==> r == Some(
                Scale::Ratio(
                    number_value(without(s@, i)) as u32,
                    pow10((s@.len() - i - 1) as nat) as u32,
                ),
            ),
{
    let cs = chars_of(s);
    let n = cs.len();
    let i = find_char(&cs, '.');
    if i == n {
        assert(cs@.subrange(0, n as int) =~= s@);
        return match parse_number(&cs, 0, n) {
            Some(v) => if v > 0 {
                Some(Scale::Ratio(v, 1))
            } else {
                None
            },
            None => None,
        };
    }
    proof {
        lemma_not_number(s@, i as int);
    }
    assert forall|j: int| ratio_at(s@, j) implies j == i by {
        if j > i {
            assert(without(s@, j)[i as int] == '.');
            lemma_not_number(without(s@, j), i as int);
        }
    }
    let frac = n - i - 1;
    if frac > 9 {
        return None;
    }
    let mut digits: Vec<char> = Vec::new();
    let mut k: usize = 0;
    while k < n
        invariant
            k <= n,
            n == s@.len(),
            cs@ == s@,
            i < n,
            k <= i ==> digits@ == s@.take(k as int),
            k > i ==> digits@ == s@.take(i as int) + s@.subrange(i + 1, k as int),
        decreases n - k,
    {
        if k != i {
            digits.push(cs[k]);
        }
        k += 1;
        assert(k <= i ==> digits@ =~= s@.take(k as int));
        assert(k > i ==> digits@ =~= s@.take(i as int) + s@.subrange(i + 1, k as int));
    }
    assert(digits@ =~= without(s@, i as int));
    let mut den: u32 = 1;
    let mut e: usize = 0;
    while e < frac
        invariant
            e <= frac <= 9,
            den == pow10(e as nat),
            1 <= den <= 1000000000,
        decreases frac - e,
    {
        assert(pow10(e as nat) <= 100000000) by {
            lemma_pow10_bound(e as nat);
        }
        den = den * 10;
        e += 1;
    }
    assert(digits@.subrange(0, digits@.len() as int) =~= digits@);
    match parse_number(&digits, 0, digits.len()) {
        Some(v) => {
            if v == 0 {
                return None;
            }
            assert(ratio_at(s@, i as int));
            Some(Scale::Ratio(v, den))
        },
        None => None,
    }
}

proof fn lemma_pow10_bound(e: nat)
    requires
        e < 9,
    ensures
        pow10(e) <= 100000000,
{
    reveal_with_fuel(pow10, 9);
}

} // verus!
