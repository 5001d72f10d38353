//! Text helpers the engine's naming rules are built on: decimal
//! rendering of counters and timestamps, lexicographic comparison of
//! names and of optional timestamps, and prefix facts.

use core::cmp::Ordering;
use vstd::prelude::*;

verus! {

/// The decimal digit character for `d` in `0..10`.
pub open spec fn digit_char(d: int) -> char {
    if d == 0 {
        '0'
    } else if d == 1 {
        '1'
    } else if d == 2 {
        '2'
    } else if d == 3 {
        '3'
    } else if d == 4 {
        '4'
    } else if d == 5 {
        '5'
    } else if d == 6 {
        '6'
    } else if d == 7 {
        '7'
    } else if d == 8 {
        '8'
    } else {
        '9'
    }
}

/// The usual decimal rendering of `n`, most significant digit first,
/// without leading zeroes (a single `'0'` for zero).
pub open spec fn udec(n: nat) -> Seq<char>
    decreases n,
{
    if n < 10 {
        seq![digit_char(n as int)]
    } else {
        udec(n / 10).push(digit_char((n % 10) as int))
    }
}

pub proof fn lemma_udec_nonempty(n: nat)
    ensures
        udec(n).len() >= 1,
    decreases n,
{
    if n >= 10 {
        lemma_udec_nonempty(n / 10);
    }
}

/// Distinct digits render as distinct characters.
pub proof fn lemma_digit_char_injective(a: int, b: int)
    requires
        0 <= a < 10,
        0 <= b < 10,
        digit_char(a) == digit_char(b),
    ensures
        a == b,
{
    assert(digit_char(a) as int == digit_char(b) as int);
}

/// Distinct numbers render as distinct digit strings.
pub proof fn lemma_udec_injective(m: nat, n: nat)
    requires
        udec(m) == udec(n),
    ensures
        m == n,
    decreases m,
{
    if m < 10 && n < 10 {
        assert(udec(m)[0] == digit_char(m as int));
        assert(udec(n)[0] == digit_char(n as int));
        assert(digit_char(m as int) == digit_char(n as int));
        lemma_digit_char_injective(m as int, n as int);
    } else if m < 10 {
        lemma_udec_nonempty(n / 10);
        assert(udec(n).len() >= 2);
    } else if n < 10 {
        lemma_udec_nonempty(m / 10);
        assert(udec(m).len() >= 2);
    } else {
        lemma_udec_nonempty(m / 10);
        lemma_udec_nonempty(n / 10);
        assert(udec(m).last() == digit_char((m % 10) as int));
        assert(udec(n).last() == digit_char((n % 10) as int));
        lemma_digit_char_injective((m % 10) as int, (n % 10) as int);
        assert(udec(m).drop_last() =~= udec(m / 10));
        assert(udec(n).drop_last() =~= udec(n / 10));
        lemma_udec_injective(m / 10, n / 10);
        assert(m == (m / 10) * 10 + (m % 10));
        assert(n == (n / 10) * 10 + (n % 10));
    }
}

/// Ten to the `k`.
pub open spec fn pow10(k: nat) -> nat
    decreases k,
{
    if k == 0 {
        1
    } else {
        10 * pow10((k - 1) as nat)
    }
}

/// A number in `[pow10(k), pow10(k + 1))` renders with exactly `k + 1`
/// digits.
pub proof fn lemma_udec_len(n: nat, k: nat)
    requires
        pow10(k) <= n < pow10(k + 1),
    ensures
        udec(n).len() == k + 1,
    decreases k,
{
    if k == 0 {
        assert(pow10(1) == 10 * pow10(0));
    } else {
        assert(pow10(k) == 10 * pow10((k - 1) as nat));
        assert(pow10(k + 1) == 10 * pow10(k));
        assert(pow10((k - 1) as nat) <= n / 10 < pow10(k));
        lemma_udec_len(n / 10, (k - 1) as nat);
    }
}

/// The static string for one decimal digit.
fn digit_str(d: u64) -> (r: &'static str)
    requires
        d < 10,
    ensures
        r@ == seq![digit_char(d as int)],
{
    if d == 0 {
        proof {
            reveal_strlit("0");
        }
        let r = "0";
        assert(r@ =~= seq![digit_char(d as int)]);
        r
    } else if d == 1 {
        proof {
            reveal_strlit("1");
        }
        let r = "1";
        assert(r@ =~= seq![digit_char(d as int)]);
        r
    } else if d == 2 {
        proof {
            reveal_strlit("2");
        }
        let r = "2";
        assert(r@ =~= seq![digit_char(d as int)]);
        r
    } else if d == 3 {
        proof {
            reveal_strlit("3");
        }
        let r = "3";
        assert(r@ =~= seq![digit_char(d as int)]);
        r
    } else if d == 4 {
        proof {
            reveal_strlit("4");
        }
        let r = "4";
        assert(r@ =~= seq![digit_char(d as int)]);
        r
    } else if d == 5 {
        proof {
            reveal_strlit("5");
        }
        let r = "5";
        assert(r@ =~= seq![digit_char(d as int)]);
        r
    } else if d == 6 {
        proof {
            reveal_strlit("6");
        }
        let r = "6";
        assert(r@ =~= seq![digit_char(d as int)]);
        r
    } else if d == 7 {
        proof {
            reveal_strlit("7");
        }
        let r = "7";
        assert(r@ =~= seq![digit_char(d as int)]);
        r
    } else if d == 8 {
        proof {
            reveal_strlit("8");
        }
        let r = "8";
        assert(r@ =~= seq![digit_char(d as int)]);
        r
    } else {
        proof {
            reveal_strlit("9");
        }
        let r = "9";
        assert(r@ =~= seq![digit_char(d as int)]);
        r
    }
}

/// Renders `n` in decimal.
pub fn udec_string(n: u64) -> (s: String)
    ensures
        s@ == udec(n as nat),
    decreases n,
{
    if n < 10 {
        String::from_str(digit_str(n))
    } else {
        let mut s = udec_string(n / 10);
        s.append(digit_str(n % 10));
        assert(s@ =~= udec(n as nat));
        s
    }
}

/// Code-point order on characters.
pub open spec fn char_cmp(a: char, b: char) -> Ordering {
    if (a as int) < (b as int) {
        Ordering::Less
    } else if a == b {
        Ordering::Equal
    } else {
        Ordering::Greater
    }
}

/// Lexicographic comparison of the tails of `a` and `b` from index `i`.
pub open spec fn str_cmp_at(a: Seq<char>, b: Seq<char>, i: int) -> Ordering
    decreases a.len() - i,
{
    if i >= a.len() && i >= b.len() {
        Ordering::Equal
    } else if i >= a.len() {
        Ordering::Less
    } else if i >= b.len() {
        Ordering::Greater
    } else if a[i] != b[i] {
        char_cmp(a[i], b[i])
    } else {
        str_cmp_at(a, b, i + 1)
    }
}

/// Plain (code-point) lexicographic order on strings.
pub open spec fn str_cmp(a: Seq<char>, b: Seq<char>) -> Ordering {
    str_cmp_at(a, b, 0)
}

pub fn compare_str(a: &str, b: &str) -> (r: Ordering)
    ensures
        r == str_cmp(a@, b@),
{
    let alen = a.unicode_len();
    let blen = b.unicode_len();
    let mut i: usize = 0;
    loop
        invariant
            i <= alen,
            i <= blen,
            alen == a@.len(),
            blen == b@.len(),
            str_cmp(a@, b@) == str_cmp_at(a@, b@, i as int),
        decreases alen - i,
    {
        if i >= alen && i >= blen {
            return Ordering::Equal;
        }
        if i >= alen {
            return Ordering::Less;
        }
        if i >= blen {
            return Ordering::Greater;
        }
        let ca = a.get_char(i);
        let cb = b.get_char(i);
        if ca == cb {
            i = i + 1;
        } else if (ca as u32) < (cb as u32) {
            return Ordering::Less;
        } else {
            return Ordering::Greater;
        }
    }
}

/// Order on optional timestamps: an absent one sorts before any present
/// one, present ones sort as their strings do.
pub open spec fn opt_str_cmp(a: Option<Seq<char>>, b: Option<Seq<char>>) -> Ordering {
    match (a, b) {
        (Option::None, Option::None) => Ordering::Equal,
        (Option::None, Option::Some(_)) => Ordering::Less,
        (Option::Some(_), Option::None) => Ordering::Greater,
        (Option::Some(x), Option::Some(y)) => str_cmp(x, y),
    }
}

pub fn compare_opt_str(a: &Option<String>, b: &Option<String>) -> (r: Ordering)
    ensures
        r == opt_str_cmp(a.deep_view(), b.deep_view()),
{
    match (a, b) {
        (Option::None, Option::None) => Ordering::Equal,
        (Option::None, Option::Some(_)) => Ordering::Less,
        (Option::Some(_), Option::None) => Ordering::Greater,
        (Option::Some(x), Option::Some(y)) => compare_str(x.as_str(), y.as_str()),
    }
}

/// Whether `p` is an initial segment of `s`.
pub open spec fn is_prefix(p: Seq<char>, s: Seq<char>) -> bool {
    p.len() <= s.len() && s.take(p.len() as int) == p
}

/// The ASCII-lowercase image of one character; anything that is not an
/// ASCII capital letter is left alone.
pub open spec fn spec_lower_char(c: char) -> char {
    match c {
        'A' => 'a',
        'B' => 'b',
        'C' => 'c',
        'D' => 'd',
        'E' => 'e',
        'F' => 'f',
        'G' => 'g',
        'H' => 'h',
        'I' => 'i',
        'J' => 'j',
        'K' => 'k',
        'L' => 'l',
        'M' => 'm',
        'N' => 'n',
        'O' => 'o',
        'P' => 'p',
        'Q' => 'q',
        'R' => 'r',
        'S' => 's',
        'T' => 't',
        'U' => 'u',
        'V' => 'v',
        'W' => 'w',
        'X' => 'x',
        'Y' => 'y',
        'Z' => 'z',
        _ => c,
    }
}

fn lower_char(c: char) -> (r: char)
    ensures
        r == spec_lower_char(c),
{
    match c {
        'A' => 'a',
        'B' => 'b',
        'C' => 'c',
        'D' => 'd',
        'E' => 'e',
        'F' => 'f',
        'G' => 'g',
        'H' => 'h',
        'I' => 'i',
        'J' => 'j',
        'K' => 'k',
        'L' => 'l',
        'M' => 'm',
        'N' => 'n',
        'O' => 'o',
        'P' => 'p',
        'Q' => 'q',
        'R' => 'r',
        'S' => 's',
        'T' => 't',
        'U' => 'u',
        'V' => 'v',
        'W' => 'w',
        'X' => 'x',
        'Y' => 'y',
        'Z' => 'z',
        _ => c,
    }
}

/// The ASCII-lowercase image of a string, character for character.
pub open spec fn spec_ascii_lower(s: Seq<char>) -> Seq<char> {
    Seq::new(s.len(), |i: int| spec_lower_char(s[i]))
}

/// Whether `s`, lower-cased, equals `key` — the comparison an opener
/// lookup makes between a file extension and a configured key.
pub fn eq_lower_ascii(s: &str, key: &str) -> (b: bool)
    ensures
        b == (spec_ascii_lower(s@) == key@),
{
    let slen = s.unicode_len();
    let klen = key.unicode_len();
    if slen != klen {
        assert(spec_ascii_lower(s@).len() != key@.len());
        return false;
    }
    let mut i: usize = 0;
    while i < slen
        invariant
            i <= slen,
            slen == s@.len() == key@.len(),
            forall|j: int| 0 <= j < i ==> spec_ascii_lower(s@)[j] == key@[j],
        decreases slen - i,
    {
        let c = lower_char(s.get_char(i));
        if !(c == key.get_char(i)) {
            assert(spec_ascii_lower(s@)[i as int] != key@[i as int]);
            return false;
        }
        i = i + 1;
    }
    assert(spec_ascii_lower(s@) =~= key@);
    true
}

} // verus!
