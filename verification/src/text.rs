//! Character, decimal-number and string utilities shared by the command
//! serializer and the response parser.

use vstd::prelude::*;

verus! {

/// The ten decimal digit characters.
pub open spec fn is_ascii_digit(c: char) -> bool {
    c == '0' || c == '1' || c == '2' || c == '3' || c == '4' || c == '5' || c == '6' || c == '7'
        || c == '8' || c == '9'
}

/// The digit character for a value below ten.
pub open spec fn digit_char(d: nat) -> char
    recommends
        d < 10,
{
    if d == 0 {
        '0'
    } else if d == 1 {
        '1'
    } else if d == 2 {
        '2'
    } else if d == 3 {
        '3'
    } else if d == 4 {
        '4'
    } else if d == 5 {
        '5'
    } else if d == 6 {
        '6'
    } else if d == 7 {
        '7'
    } else if d == 8 {
        '8'
    } else {
        '9'
    }
}

/// The value of a decimal digit character.
pub open spec fn digit_val(c: char) -> nat
    recommends
        is_ascii_digit(c),
{
    if c == '0' {
        0
    } else if c == '1' {
        1
    } else if c == '2' {
        2
    } else if c == '3' {
        3
    } else if c == '4' {
        4
    } else if c == '5' {
        5
    } else if c == '6' {
        6
    } else if c == '7' {
        7
    } else if c == '8' {
        8
    } else {
        9
    }
}

/// The canonical decimal rendering of a natural number: no sign, no leading
/// zeros (a single `'0'` for zero).
pub open spec fn decimal_digits(n: nat) -> Seq<char>
    decreases n,
{
    if n < 10 {
        seq![digit_char(n)]
    } else {
        decimal_digits(n / 10) + seq![digit_char(n % 10)]
    }
}

/// The number denoted by a sequence of decimal digit characters.
pub open spec fn decimal_value(s: Seq<char>) -> nat
    decreases s.len(),
{
    if s.len() == 0 {
        0
    } else {
        decimal_value(s.drop_last()) * 10 + digit_val(s.last())
    }
}

/// Every character of the sequence is a decimal digit.
pub open spec fn all_digits(s: Seq<char>) -> bool {
    forall|i: int| 0 <= i < s.len() ==> is_ascii_digit(s[i])
}

/// A non-empty all-digit sequence without a superfluous leading zero.
pub open spec fn is_canonical_decimal(s: Seq<char>) -> bool {
    &&& s.len() > 0
    &&& all_digits(s)
    &&& s.len() > 1 ==> s[0] != '0'
}

/// The number a canonical decimal sequence denotes, or `None` where the
/// sequence is not a canonical decimal.
pub open spec fn parse_decimal(s: Seq<char>) -> Option<nat> {
    if is_canonical_decimal(s) {
        Some(decimal_value(s))
    } else {
        None
    }
}

/// The parts joined into one sequence with `sep` written between them.
pub open spec fn join_with(parts: Seq<Seq<char>>, sep: char) -> Seq<char>
    decreases parts.len(),
{
    if parts.len() == 0 {
        Seq::empty()
    } else if parts.len() == 1 {
        parts[0]
    } else {
        join_with(parts.drop_last(), sep) + seq![sep] + parts.last()
    }
}

/// The character `c` appears nowhere in `s`.
pub open spec fn no_char(s: Seq<char>, c: char) -> bool {
    forall|i: int| 0 <= i < s.len() ==> s[i] != c
}

/// The position of the first occurrence of `c` in `s`, if any.
pub open spec fn first_index(s: Seq<char>, c: char) -> Option<nat>
    decreases s.len(),
{
    if s.len() == 0 {
        None
    } else if s[0] == c {
        Some(0)
    } else {
        match first_index(s.drop_first(), c) {
            Some(i) => Some((i + 1) as nat),
            None => None,
        }
    }
}

/// `first_index` returns the position of an occurrence before which the
/// character does not appear, and `None` exactly when it appears nowhere.
pub proof fn lemma_first_index(s: Seq<char>, c: char)
    ensures
        match first_index(s, c) {
            Some(i) => i < s.len() && s[i as int] == c && (forall|j: int|
                0 <= j < i ==> s[j] != c),
            None => no_char(s, c),
        },
    decreases s.len(),
{
    if s.len() == 0 {
    } else if s[0] == c {
    } else {
        lemma_first_index(s.drop_first(), c);
        assert(forall|j: int| 1 <= j < s.len() ==> s[j] == s.drop_first()[j - 1]);
    }
}

/// In `a + [c] + b` with `c` absent from `a`, the first occurrence of `c` is
/// the one written between `a` and `b`.
pub proof fn lemma_first_index_concat(a: Seq<char>, b: Seq<char>, c: char)
    requires
        no_char(a, c),
    ensures
        first_index(a + seq![c] + b, c) == Some(a.len()),
    decreases a.len(),
{
    let s = a + seq![c] + b;
    if a.len() == 0 {
        assert(s[0] == c);
    } else {
        assert(s[0] == a[0]);
        lemma_first_index_concat(a.drop_first(), b, c);
        assert(s.drop_first() =~= a.drop_first() + seq![c] + b);
    }
}

/// Where `c` appears nowhere in `s`, `first_index` finds nothing.
pub proof fn lemma_first_index_none(s: Seq<char>, c: char)
    requires
        no_char(s, c),
    ensures
        first_index(s, c) is None,
{
    lemma_first_index(s, c);
    if first_index(s, c) is Some {
        let i = first_index(s, c)->0;
        assert(s[i as int] == c);
    }
}

/// Every character of a canonical decimal rendering is a digit.
pub proof fn lemma_decimal_digits_all_digits(n: nat)
    ensures
        all_digits(decimal_digits(n)),
        decimal_digits(n).len() >= 1,
    decreases n,
{
    if n < 10 {
    } else {
        lemma_decimal_digits_all_digits(n / 10);
        let s = decimal_digits(n);
        let p = decimal_digits(n / 10);
        assert(forall|i: int| 0 <= i < p.len() ==> s[i] == p[i]);
        assert(s[s.len() - 1] == digit_char(n % 10));
    }
}

/// A positive number's rendering does not begin with `'0'`.
pub proof fn lemma_decimal_digits_leading(n: nat)
    requires
        n >= 1,
    ensures
        decimal_digits(n)[0] != '0',
    decreases n,
{
    if n < 10 {
    } else {
        lemma_decimal_digits_leading(n / 10);
        assert(decimal_digits(n)[0] == decimal_digits(n / 10)[0]);
    }
}

/// Rendering a number and reading the digits back yields the number.
pub proof fn lemma_decimal_round_trip(n: nat)
    ensures
        parse_decimal(decimal_digits(n)) == Some(n),
    decreases n,
{
    lemma_decimal_digits_all_digits(n);
    if n >= 1 {
        lemma_decimal_digits_leading(n);
    }
    lemma_decimal_value(n);
}

/// The digits of `n` denote `n`.
pub proof fn lemma_decimal_value(n: nat)
    ensures
        decimal_value(decimal_digits(n)) == n,
    decreases n,
{
    if n < 10 {
        let s = decimal_digits(n);
        assert(s =~= seq![digit_char(n)]);
        assert(s.last() == digit_char(n));
        assert(s.drop_last() =~= Seq::<char>::empty());
        assert(decimal_value(s.drop_last()) == 0);
        assert(digit_val(digit_char(n)) == n);
        assert(decimal_value(s) == n);
    } else {
        lemma_decimal_value(n / 10);
        let s = decimal_digits(n);
        assert(s =~= decimal_digits(n / 10) + seq![digit_char(n % 10)]);
        assert(s.drop_last() =~= decimal_digits(n / 10));
        assert(s.last() == digit_char(n % 10));
        assert(digit_val(digit_char(n % 10)) == n % 10);
        assert(decimal_value(s) == decimal_value(decimal_digits(n / 10)) * 10 + n % 10);
        assert(n / 10 * 10 + n % 10 == n) by {
            vstd::arithmetic::div_mod::lemma_fundamental_div_mod(n as int, 10);
        }
    }
}

/// Appends the single digit character for `d`.
fn digit_str(d: u64) -> (r: &'static str)
    requires
        d < 10,
    ensures
        r@ == seq![digit_char(d as nat)],
{
    let r: &'static str = if d == 0 {
        "0"
    } else if d == 1 {
        "1"
    } else if d == 2 {
        "2"
    } else if d == 3 {
        "3"
    } else if d == 4 {
        "4"
    } else if d == 5 {
        "5"
    } else if d == 6 {
        "6"
    } else if d == 7 {
        "7"
    } else if d == 8 {
        "8"
    } else {
        "9"
    };
    proof {
        reveal_strlit("0");
        reveal_strlit("1");
        reveal_strlit("2");
        reveal_strlit("3");
        reveal_strlit("4");
        reveal_strlit("5");
        reveal_strlit("6");
        reveal_strlit("7");
        reveal_strlit("8");
        reveal_strlit("9");
        assert(r@ =~= seq![digit_char(d as nat)]);
    }
    r
}

/// Appends the canonical decimal rendering of `n` to `s`.
pub fn push_decimal(s: &mut String, n: u64)
    ensures
        final(s)@ == old(s)@ + decimal_digits(n as nat),
    decreases n,
{
    let ghost pre = s@;
    if n >= 10 {
        push_decimal(s, n / 10);
    }
    let d = digit_str(n % 10);
    s.append(d);
    proof {
        if n >= 10 {
            assert(s@ =~= pre + decimal_digits(n as nat));
        } else {
            assert(n % 10 == n as nat);
            assert(s@ =~= pre + decimal_digits(n as nat));
        }
    }
}

/// Whether two string slices hold the same characters.
pub fn str_eq(a: &str, b: &str) -> (r: bool)
    ensures
        r == (a@ == b@),
{
    let n = a.unicode_len();
    let m = b.unicode_len();
    if n != m {
        return false;
    }
    let mut i: usize = 0;
    while i < n
        invariant
            i <= n,
            n == a@.len(),
            n == b@.len(),
            forall|j: int| 0 <= j < i ==> a@[j] == b@[j],
        decreases n - i,
    {
        if a.get_char(i) != b.get_char(i) {
            return false;
        }
        i += 1;
    }
    proof {
        assert(a@ =~= b@);
    }
    true
}

/// The position of the first occurrence of `c` in `s`, if any.
pub fn find_char(s: &str, c: char) -> (r: Option<usize>)
    ensures
        match r {
            Some(i) => first_index(s@, c) == Some(i as nat),
            None => first_index(s@, c) is None,
        },
{
    let n = s.unicode_len();
    let mut i: usize = 0;
    while i < n
        invariant
            i <= n,
            n == s@.len(),
            forall|j: int| 0 <= j < i ==> s@[j] != c,
        decreases n - i,
    {
        if s.get_char(i) == c {
            proof {
                lemma_first_index(s@, c);
            }
            return Some(i);
        }
        i += 1;
    }
    proof {
        lemma_first_index(s@, c);
    }
    None
}

} // verus!
