//! Text as the log stream handles it: how keys are ordered, and how numbers are
//! written.

use vstd::prelude::*;

verus! {

/// How one text stands to another in [`text_lt`].
#[derive(Clone, Copy, PartialEq, Eq, Structural, Debug)]
pub enum TextOrder {
    Before,
    Same,
    After,
}

/// `a` comes before `b`: at the first place where they differ `a` has the
/// smaller code point, or `a` ends there.
pub open spec fn text_lt(a: Seq<char>, b: Seq<char>) -> bool
    decreases a.len(),
{
    if b.len() == 0 {
        false
    } else if a.len() == 0 {
        true
    } else if a[0] == b[0] {
        text_lt(a.drop_first(), b.drop_first())
    } else {
        a[0] < b[0]
    }
}

/// No text comes before itself.
pub proof fn text_lt_irreflexive(a: Seq<char>)
    ensures
        !text_lt(a, a),
    decreases a.len(),
{
    if a.len() > 0 {
        text_lt_irreflexive(a.drop_first());
    }
}

/// The order is transitive.
pub proof fn text_lt_transitive(a: Seq<char>, b: Seq<char>, c: Seq<char>)
    requires
        text_lt(a, b),
        text_lt(b, c),
    ensures
        text_lt(a, c),
    decreases a.len(),
{
    if a.len() > 0 && a[0] == b[0] && b[0] == c[0] {
        text_lt_transitive(a.drop_first(), b.drop_first(), c.drop_first());
    }
}

/// Where two texts agree up to a place, and there the one ends and the other goes on, or the
/// one has the smaller code point, that one comes before the other, and not the other way
/// round.
pub proof fn first_difference_decides(a: Seq<char>, b: Seq<char>, at: int)
    requires
        0 <= at <= a.len(),
        at < b.len(),
        forall|i: int| 0 <= i < at ==> a[i] == b[i],
        at < a.len() ==> a[at] < b[at],
    ensures
        text_lt(a, b),
        !text_lt(b, a),
    decreases at,
{
    if at > 0 {
        assert(a[0] == b[0]);
        let s = a.drop_first();
        let t = b.drop_first();
        assert forall|i: int| 0 <= i < at - 1 implies s[i] == t[i] by {
            assert(a[i + 1] == b[i + 1]);
        }
        first_difference_decides(s, t, at - 1);
    }
}

/// How `a` stands to `b`.
pub fn text_order(a: &str, b: &str) -> (order: TextOrder)
    ensures
        order is Before <==> text_lt(a@, b@),
        order is Same <==> a@ == b@,
        order is After <==> text_lt(b@, a@),
{
    let mut left = a.chars();
    let mut right = b.chars();
    let ghost mut i: int = 0;
    loop
        invariant
            0 <= i <= a@.len(),
            i <= b@.len(),
            vstd::std_specs::iter::IteratorSpec::remaining(&left) == a@.skip(i),
            vstd::std_specs::iter::IteratorSpec::remaining(&right) == b@.skip(i),
            forall|j: int| 0 <= j < i ==> a@[j] == b@[j],
            text_lt(a@, b@) == text_lt(a@.skip(i), b@.skip(i)),
            text_lt(b@, a@) == text_lt(b@.skip(i), a@.skip(i)),
        decreases a@.len() - i,
    {
        let l = left.next();
        let r = right.next();
        match (l, r) {
            (None, None) => {
                proof {
                    assert(a@.skip(i).len() == 0 && b@.skip(i).len() == 0);
                    assert(a@ =~= b@);
                }
                return TextOrder::Same;
            },
            (None, Some(_)) => return TextOrder::Before,
            (Some(_), None) => return TextOrder::After,
            (Some(x), Some(y)) => {
                if x < y {
                    return TextOrder::Before;
                }
                if y < x {
                    return TextOrder::After;
                }
            },
        }
        proof {
            assert(a@.skip(i)[0] == a@[i] && b@.skip(i)[0] == b@[i]);
            assert(a@.skip(i).drop_first() =~= a@.skip(i + 1));
            assert(b@.skip(i).drop_first() =~= b@.skip(i + 1));
            i = i + 1;
        }
    }
}

/// Whether `a` and `b` hold the same characters.
pub fn same_text(a: &str, b: &str) -> (same: bool)
    ensures
        same == (a@ == b@),
{
    match text_order(a, b) {
        TextOrder::Same => true,
        _ => false,
    }
}

/// The decimal digit for `d`.
pub open spec fn digit(d: nat) -> char
    recommends
        d < 10,
{
    ('0' as nat + d) as char
}

/// `n` in decimal, without leading zeros.
pub open spec fn decimal(n: nat) -> Seq<char>
    decreases n,
{
    if n < 10 {
        seq![digit(n)]
    } else {
        decimal(n / 10).push(digit(n % 10))
    }
}

/// The number that a run of decimal digits stands for.
pub open spec fn number(digits: Seq<char>) -> int
    decreases digits.len(),
{
    if digits.len() == 0 {
        0
    } else {
        10 * number(digits.drop_last()) + (digits.last() as int - '0' as int)
    }
}

/// A number in decimal is made of digits, starts with a zero only if it is zero, and
/// reads back as itself.
pub proof fn decimal_reads_back(n: nat)
    ensures
        decimal(n).len() > 0,
        forall|i: int| 0 <= i < decimal(n).len() ==> '0' <= #[trigger] decimal(n)[i] <= '9',
        n > 0 ==> decimal(n)[0] != '0',
        number(decimal(n)) == n,
    decreases n,
{
    if n < 10 {
        assert(decimal(n).drop_last() =~= Seq::empty());
        assert(number(decimal(n).drop_last()) == 0);
    } else {
        decimal_reads_back(n / 10);
        assert(decimal(n).drop_last() =~= decimal(n / 10));
    }
}

/// A number in decimal has, at each place from the right, the digit of that power of ten,
/// and as many places as the number needs.
pub proof fn decimal_has_the_digit_of_each_place(n: nat, place: nat)
    ensures
        n < vstd::arithmetic::power::pow(10, decimal(n).len()),
        decimal(n).len() > 1 ==> vstd::arithmetic::power::pow(10, (decimal(n).len() - 1) as nat)
            <= n,
        place < decimal(n).len() ==> decimal(n)[decimal(n).len() - 1 - place] as int - '0' as int
            == (n as int / vstd::arithmetic::power::pow(10, place)) % 10,
    decreases n,
{
    vstd::arithmetic::power::lemma_pow0(10);
    vstd::arithmetic::power::lemma_pow1(10);
    if n >= 10 {
        let rest = n / 10;
        let len = decimal(rest).len();
        assert(decimal(n).len() == len + 1);
        decimal_reads_back(rest);
        vstd::arithmetic::power::lemma_pow_adds(10, 1, len);
        vstd::arithmetic::power::lemma_pow_adds(10, 1, (len - 1) as nat);
        if place == 0 {
            decimal_has_the_digit_of_each_place(rest, 0);
            assert(n as int / 1 == n);
        } else {
            let lower = (place - 1) as nat;
            decimal_has_the_digit_of_each_place(rest, lower);
            vstd::arithmetic::power::lemma_pow_positive(10, lower);
            vstd::arithmetic::power::lemma_pow_adds(10, 1, lower);
            vstd::arithmetic::div_mod::lemma_div_denominator(
                n as int,
                10,
                vstd::arithmetic::power::pow(10, lower),
            );
            if place < decimal(n).len() {
                assert(decimal(n)[decimal(n).len() - 1 - place] == decimal(rest)[len - 1 - lower]);
            }
        }
    } else {
        assert(decimal(n).len() == 1);
        assert(n as int / 1 == n);
    }
}

/// Different numbers are written differently.
pub proof fn decimals_differ(a: nat, b: nat)
    requires
        a != b,
    ensures
        decimal(a) != decimal(b),
{
    decimal_reads_back(a);
    decimal_reads_back(b);
}

/// `n` in decimal, with a minus sign in front where it is negative.
pub open spec fn signed_decimal(n: int) -> Seq<char> {
    if n < 0 {
        seq!['-'] + decimal((-n) as nat)
    } else {
        decimal(n as nat)
    }
}

/// `true` or `false` in words.
pub open spec fn truth(value: bool) -> Seq<char> {
    if value {
        "true"@
    } else {
        "false"@
    }
}

/// A number that is not negative is written as it is without a sign. The text of its
/// negative is a minus sign and then just that.
pub proof fn sign_stands_in_front(n: nat)
    ensures
        signed_decimal(n as int) == decimal(n),
        n > 0 ==> signed_decimal(-(n as int)) == seq!['-'] + decimal(n),
{
}

fn digit_text(d: u128) -> (text: &'static str)
    requires
        d < 10,
    ensures
        text@ == seq![digit(d as nat)],
{
    proof {
        reveal_strlit("0");
        reveal_strlit("1");
        reveal_strlit("2");
        reveal_strlit("3");
        reveal_strlit("4");
        reveal_strlit("5");
        reveal_strlit("6");
        reveal_strlit("7");
        reveal_strlit("8");
        reveal_strlit("9");
    }
    match d {
        0 => "0",
        1 => "1",
        2 => "2",
        3 => "3",
        4 => "4",
        5 => "5",
        6 => "6",
        7 => "7",
        8 => "8",
        _ => "9",
    }
}

/// Writes `n` in decimal.
pub fn decimal_text(n: u128) -> (text: String)
    ensures
        text@ == decimal(n as nat),
        number(text@) == n,
        forall|i: int| 0 <= i < text@.len() ==> '0' <= #[trigger] text@[i] <= '9',
    decreases n,
{
    proof {
        decimal_reads_back(n as nat);
    }
    if n < 10 {
        digit_text(n).to_string()
    } else {
        let mut text = decimal_text(n / 10);
        text.append(digit_text(n % 10));
        text
    }
}

/// Writes `n` in decimal, with a minus sign in front where it is negative.
pub fn signed_decimal_text(n: i64) -> (text: String)
    ensures
        text@ == signed_decimal(n as int),
        n >= 0 ==> number(text@) == n,
        n < 0 ==> text@.len() > 0 && text@[0] == '-' && number(text@.skip(1)) == -n,
{
    proof {
        if n < 0 {
            decimal_reads_back((-n) as nat);
            assert((seq!['-'] + decimal((-n) as nat)).skip(1) =~= decimal((-n) as nat));
        } else {
            decimal_reads_back(n as nat);
        }
    }
    let wide: i128 = n as i128;
    if wide < 0 {
        proof {
            reveal_strlit("-");
        }
        let mut text = "-".to_string();
        assert(text@ =~= seq!['-']);
        let digits = decimal_text((-wide) as u128);
        text.append(digits.as_str());
        text
    } else {
        decimal_text(wide as u128)
    }
}

/// Writes a truth value in words.
pub fn truth_text(value: bool) -> (text: String)
    ensures
        text@ == truth(value),
        value ==> text@ == "true"@,
        !value ==> text@ == "false"@,
{
    if value {
        "true".to_string()
    } else {
        "false".to_string()
    }
}

/// What [`text_order`] says is settled at the first place where the two texts differ, and they
/// are the same where there is none.
pub proof fn order_is_settled_at_the_first_difference(a: &str, b: &str, order: TextOrder, at: int)
    requires
        call_ensures(text_order, (a, b), order),
        0 <= at <= a@.len(),
        at <= b@.len(),
        forall|i: int| 0 <= i < at ==> a@[i] == b@[i],
        at < a@.len() && at < b@.len() ==> a@[at] != b@[at],
    ensures
        order is Same <==> a@.len() == at && b@.len() == at,
        order is Before <==> at < b@.len() && (at < a@.len() ==> a@[at] < b@[at]),
        order is After <==> at < a@.len() && (at < b@.len() ==> b@[at] < a@[at]),
{
    if at < b@.len() && (at < a@.len() ==> a@[at] < b@[at]) {
        first_difference_decides(a@, b@, at);
    } else if at < a@.len() {
        first_difference_decides(b@, a@, at);
    } else {
        assert(a@ =~= b@);
        text_lt_irreflexive(a@);
    }
}

/// What [`decimal_text`] writes has, at each place from the right, the digit of that power of
/// ten, and as many places as the number needs.
pub proof fn text_has_the_digit_of_each_place(n: u128, text: String, place: nat)
    requires
        call_ensures(decimal_text, (n,), text),
    ensures
        0 < text@.len(),
        n < vstd::arithmetic::power::pow(10, text@.len()),
        text@.len() > 1 ==> vstd::arithmetic::power::pow(10, (text@.len() - 1) as nat) <= n,
        place < text@.len() ==> text@[text@.len() - 1 - place] as int - '0' as int == (n as int
            / vstd::arithmetic::power::pow(10, place)) % 10,
{
    decimal_reads_back(n as nat);
    decimal_has_the_digit_of_each_place(n as nat, place);
}

/// What [`signed_decimal_text`] writes for a number and for its negative differ by a minus
/// sign in front alone.
pub proof fn negative_is_marked(n: i64, m: i64, text: String, marked: String)
    requires
        call_ensures(signed_decimal_text, (n,), text),
        call_ensures(signed_decimal_text, (m,), marked),
        0 < n,
        m == -n,
    ensures
        marked@ == seq!['-'] + text@,
        forall|i: int| 0 <= i < text@.len() ==> '0' <= #[trigger] text@[i] <= '9',
        text@[0] != '0',
        number(text@) == n,
{
    decimal_reads_back(n as nat);
}

/// The two truth values are told apart.
pub proof fn truth_is_told(value: bool, text: String)
    requires
        call_ensures(truth_text, (value,), text),
    ensures
        value <==> text@ == "true"@,
        !value <==> text@ == "false"@,
{
    reveal_strlit("true");
    reveal_strlit("false");
    assert("true"@.len() != "false"@.len());
}

} // verus!
