//! Decimal rendering of integers and concatenation of text.
use vstd::prelude::*;
use vstd::string::StringExecFns;

verus! {

/// The character that stands for the decimal digit `d`.
pub open spec fn digit_char(d: nat) -> char {
    (48 + d) as char
}

/// The decimal digits of `n`, most significant first and without leading zeros.
pub open spec fn decimal(n: nat) -> Seq<char>
    decreases n,
{
    if n < 10 {
        seq![digit_char(n)]
    } else {
        decimal(n / 10).push(digit_char(n % 10))
    }
}

/// `n` in decimal, with a leading `-` if it is negative.
pub open spec fn integer(n: int) -> Seq<char> {
    if n < 0 {
        seq!['-'] + decimal((-n) as nat)
    } else {
        decimal(n as nat)
    }
}

/// The text of one digit.
fn digit_text(d: u64) -> (s: &'static str)
    requires
        d < 10,
    ensures
        s@ == seq![digit_char(d as nat)],
{
    proof {
        reveal_strlit("0");
        reveal_strlit("1");
        reveal_strlit("2");
        reveal_strlit("3");
        reveal_strlit("4");
        reveal_strlit("5");
        reveal_strlit("6");
        reveal_strlit("7");
        reveal_strlit("8");
        reveal_strlit("9");
    }
    match d {
        0 => "0",
        1 => "1",
        2 => "2",
        3 => "3",
        4 => "4",
        5 => "5",
        6 => "6",
        7 => "7",
        8 => "8",
        _ => "9",
    }
}

/// Renders `n` in decimal.
pub fn decimal_text(n: u64) -> (s: String)
    ensures
        s@ == decimal(n as nat),
    decreases n,
{
    if n < 10 {
        digit_text(n).to_owned()
    } else {
        let mut s = decimal_text(n / 10);
        s.append(digit_text(n % 10));
        s
    }
}

/// Renders `n` in decimal, with its sign if it is negative.
pub fn integer_text(n: i64) -> (s: String)
    ensures
        s@ == integer(n as int),
{
    if n < 0 {
        proof {
            reveal_strlit("-");
        }
        let magnitude: u64 = if n == i64::MIN {
            0x8000_0000_0000_0000
        } else {
            (-n) as u64
        };
        let digits = decimal_text(magnitude);
        let s = "-".to_owned().concat(digits.as_str());
        s
    } else {
        decimal_text(n as u64)
    }
}

/// Joins two pieces of text.
pub fn join2(a: &str, b: &str) -> (s: String)
    ensures
        s@ == a@ + b@,
{
    a.to_owned().concat(b)
}

/// A decimal rendering is never empty, and holds digits only.
pub proof fn lemma_decimal_digits(n: nat)
    ensures
        decimal(n).len() >= 1,
        n >= 10 ==> decimal(n).len() >= 2,
        forall|i: int| 0 <= i < decimal(n).len() ==> 48 <= #[trigger] decimal(n)[i] as nat <= 57,
    decreases n,
{
    if n >= 10 {
        lemma_decimal_digits(n / 10);
    }
}

/// Two numbers with the same decimal rendering are the same number.
pub proof fn lemma_decimal_injective(a: nat, b: nat)
    requires
        decimal(a) == decimal(b),
    ensures
        a == b,
    decreases a,
{
    lemma_decimal_digits(a);
    lemma_decimal_digits(b);
    if a >= 10 {
        assert(decimal(a).last() == digit_char(a % 10));
        assert(decimal(b).last() == digit_char(b % 10));
        assert(decimal(a).drop_last() =~= decimal(a / 10));
        assert(decimal(b).drop_last() =~= decimal(b / 10));
        lemma_decimal_injective(a / 10, b / 10);
    } else {
        assert(decimal(a)[0] == digit_char(a));
        assert(decimal(b)[0] == digit_char(b));
    }
}

/// Two integers with the same rendering are the same integer.
pub proof fn lemma_integer_injective(a: int, b: int)
    requires
        integer(a) == integer(b),
    ensures
        a == b,
{
    if a < 0 {
        lemma_decimal_digits((-a) as nat);
        assert(integer(a)[0] == '-');
    } else {
        lemma_decimal_digits(a as nat);
        assert(48 <= integer(a)[0] as nat <= 57);
    }
    if b < 0 {
        lemma_decimal_digits((-b) as nat);
        assert(integer(b)[0] == '-');
    } else {
        lemma_decimal_digits(b as nat);
        assert(48 <= integer(b)[0] as nat <= 57);
    }
    if a < 0 {
        assert(integer(a).skip(1) =~= decimal((-a) as nat));
        assert(integer(b).skip(1) =~= decimal((-b) as nat));
        lemma_decimal_injective((-a) as nat, (-b) as nat);
    } else {
        lemma_decimal_injective(a as nat, b as nat);
    }
}

/// The number that a series of decimal digits stands for.
pub open spec fn value_of(digits: Seq<char>) -> int
    decreases digits.len(),
{
    if digits.len() == 0 {
        0
    } else {
        10 * value_of(digits.drop_last()) + (digits.last() as int - '0' as int)
    }
}

/// Whether `s` is how `n` is written in decimal: in digits, with no zero in front, and with the
/// value `n`.
pub open spec fn is_numeral(s: Seq<char>, n: int) -> bool {
    &&& s.len() > 0
    &&& forall|i: int| 0 <= i < s.len() ==> '0' <= #[trigger] s[i] <= '9'
    &&& s.len() > 1 ==> s[0] != '0'
    &&& value_of(s) == n
}

/// Whether `s` is how `n` is written in decimal, with a minus sign in front if it is negative.
pub open spec fn is_signed_numeral(s: Seq<char>, n: int) -> bool {
    if n < 0 {
        s.len() > 0 && s[0] == '-' && is_numeral(s.skip(1), -n)
    } else {
        is_numeral(s, n)
    }
}

/// A numeral stands for a number that is not negative, and for a positive one if it does not begin
/// with a zero.
proof fn lemma_value_of(s: Seq<char>)
    requires
        forall|i: int| 0 <= i < s.len() ==> '0' <= #[trigger] s[i] <= '9',
    ensures
        value_of(s) >= 0,
        s.len() > 0 && s[0] != '0' ==> value_of(s) > 0,
    decreases s.len(),
{
    if s.len() > 0 {
        let rest = s.drop_last();
        assert forall|i: int| 0 <= i < rest.len() implies '0' <= #[trigger] rest[i] <= '9' by {
            assert(rest[i] == s[i]);
        }
        lemma_value_of(rest);
        assert('0' <= s[s.len() - 1] <= '9');
    }
}

/// A number is written in one way only.
pub proof fn law_numerals_are_unique(s: Seq<char>, t: Seq<char>, n: int)
    requires
        is_numeral(s, n),
        is_numeral(t, n),
    ensures
        s == t,
    decreases s.len(),
{
    let a = s.drop_last();
    let b = t.drop_last();
    assert forall|i: int| 0 <= i < a.len() implies '0' <= #[trigger] a[i] <= '9' by {
        assert(a[i] == s[i]);
    }
    assert forall|i: int| 0 <= i < b.len() implies '0' <= #[trigger] b[i] <= '9' by {
        assert(b[i] == t[i]);
    }
    lemma_value_of(a);
    lemma_value_of(b);
    assert('0' <= s[s.len() - 1] <= '9');
    assert('0' <= t[t.len() - 1] <= '9');
    assert(value_of(a) == value_of(b) && s.last() == t.last());
    if s.len() == 1 {
        if t.len() > 1 {
            assert(b[0] == t[0]);
        }
        assert(s =~= t);
    } else {
        assert(a[0] == s[0]);
        if t.len() > 1 {
            assert(b[0] == t[0]);
        }
        law_numerals_are_unique(a, b, value_of(a));
        assert(s =~= a.push(s.last()));
        assert(t =~= b.push(t.last()));
    }
}

/// What is rendered is read back: the rendering of a number is a numeral of that number, and there
/// is no other.
pub proof fn law_decimal_is_the_numeral(n: nat)
    ensures
        is_numeral(decimal(n), n as int),
        forall|s: Seq<char>| #[trigger] is_numeral(s, n as int) ==> s == decimal(n),
    decreases n,
{
    if n >= 10 {
        law_decimal_is_the_numeral(n / 10);
        let rest = decimal(n / 10);
        assert(decimal(n).drop_last() =~= rest);
        assert(decimal(n).last() == digit_char(n % 10));
        assert(decimal(n)[0] == rest[0]);
        if rest.len() == 1 {
            assert(rest.drop_last() =~= Seq::<char>::empty());
            assert(value_of(rest.drop_last()) == 0);
        }
        assert forall|i: int| 0 <= i < decimal(n).len() implies '0' <= #[trigger] decimal(n)[i]
            <= '9' by {
            if i < rest.len() {
                assert(decimal(n)[i] == rest[i]);
            }
        }
    } else {
        assert(decimal(n).drop_last() =~= Seq::<char>::empty());
        assert(value_of(decimal(n).drop_last()) == 0);
        assert(decimal(n).last() == digit_char(n));
    }
    assert forall|s: Seq<char>| #[trigger] is_numeral(s, n as int) implies s == decimal(n) by {
        law_numerals_are_unique(s, decimal(n), n as int);
    }
}

/// The same of integers: the rendering is a numeral with its sign, and there is no other.
pub proof fn law_integer_is_the_numeral(n: int)
    ensures
        is_signed_numeral(integer(n), n),
        forall|s: Seq<char>| #[trigger] is_signed_numeral(s, n) ==> s == integer(n),
{
    if n < 0 {
        law_decimal_is_the_numeral((-n) as nat);
        assert(integer(n).skip(1) =~= decimal((-n) as nat));
        assert forall|s: Seq<char>| #[trigger] is_signed_numeral(s, n) implies s == integer(n) by {
            assert(s =~= seq!['-'] + s.skip(1));
        }
    } else {
        law_decimal_is_the_numeral(n as nat);
    }
}

/// What stands in `s` before the first `c`, or all of it.
pub open spec fn text_before(s: Seq<char>, c: char) -> Seq<char> {
    match s.index_of_first(c) {
        Some(i) => s.take(i),
        None => s,
    }
}

/// What stands in `a + b` before the first `c` is `a`, if `b` begins with the first one.
pub proof fn lemma_text_before(a: Seq<char>, b: Seq<char>, c: char)
    requires
        !a.contains(c),
        b.len() > 0,
        b[0] == c,
    ensures
        text_before(a + b, c) == a,
{
    let s = a + b;
    s.index_of_first_ensures(c);
    assert(s[a.len() as int] == c);
    assert(s.contains(c));
    let i = s.index_of_first(c)->Some_0;
    if i < a.len() {
        assert(s[i] == a[i]);
        assert(a.contains(c));
    }
    assert(s.take(i) =~= a);
}

} // verus!
