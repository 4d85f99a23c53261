//! Plain text helpers: conversion into `String`, joining, decimal numbers and replacement.

use vstd::prelude::*;

verus! {

/// `String::from` on a string slice, of the standard library.
///
/// Trusted: the result holds the characters of the slice.
pub assume_specification<'a, 'b>[ <String as From<&'a str>>::from ](text: &'b str) -> (result:
    String)
    ensures
        result@ == text@,
;

/// The conversion of a value into its own type, of the standard library.
///
/// Trusted: it returns its argument unchanged.
pub assume_specification<Any>[ <Any as From<Any>>::from ](value: Any) -> (result: Any)
    ensures
        result == value,
;

/// `String::push` of the standard library.
///
/// Trusted: it appends the character at the end.
pub assume_specification[ String::push ](text: &mut String, c: char)
    ensures
        final(text)@ == old(text)@.push(c),
;

/// The two texts, one after the other.
pub(crate) fn joined(first: &str, second: &str) -> (text: String)
    ensures
        text@ == first@ + second@,
{
    String::from(first).concat(second)
}

/// The decimal digit for a number below ten.
pub open spec fn digit(value: nat) -> char {
    (48 + value) as char
}

/// A number in decimal notation, without leading zeros.
pub open spec fn decimal(value: nat) -> Seq<char>
    decreases value,
{
    if value < 10 {
        seq![digit(value)]
    } else {
        decimal(value / 10).push(digit(value % 10))
    }
}

/// Renders a number in decimal notation.
pub fn decimal_text(value: u32) -> (text: String)
    ensures
        text@ == decimal(value as nat),
    decreases value,
{
    let mut text = if value < 10 {
        String::new()
    } else {
        decimal_text(value / 10)
    };
    let low: u8 = (value % 10) as u8;
    text.push((48 + low) as char);
    proof {
        if value < 10 {
            assert(text@ =~= seq![digit(value as nat)]);
        }
    }
    text
}

/// `text` begins with `prefix`.
pub open spec fn starts_with(text: Seq<char>, prefix: Seq<char>) -> bool {
    prefix.len() <= text.len() && text.take(prefix.len() as int) == prefix
}

/// `text` with every occurrence of `from`, found from left to right without overlap, replaced by
/// `to`.
pub open spec fn replaced(text: Seq<char>, from: Seq<char>, to: Seq<char>) -> Seq<char>
    decreases text.len(),
{
    if from.len() == 0 || text.len() == 0 {
        text
    } else if starts_with(text, from) {
        to + replaced(text.skip(from.len() as int), from, to)
    } else {
        seq![text[0]] + replaced(text.skip(1), from, to)
    }
}

/// The characters of a string, as a vector.
fn characters(text: &str) -> (chars: Vec<char>)
    ensures
        chars@ == text@,
{
    let mut chars: Vec<char> = Vec::new();
    for c in it: text.chars()
        invariant
            chars@ == it.seq().take(it.index()),
            it.seq() == text@,
    {
        chars.push(c);
    }
    assert(text@.take(text@.len() as int) =~= text@);
    chars
}

/// Whether the characters from position `at` on begin with `prefix`.
fn matches_at(chars: &Vec<char>, at: usize, prefix: &Vec<char>) -> (found: bool)
    requires
        at <= chars@.len(),
    ensures
        found == starts_with(chars@.skip(at as int), prefix@),
{
    if prefix.len() > chars.len() - at {
        return false;
    }
    let ghost rest = chars@.skip(at as int);
    for i in 0..prefix.len()
        invariant
            at + prefix.len() <= chars.len(),
            rest == chars@.skip(at as int),
            forall|j: int| 0 <= j < i ==> rest[j] == prefix@[j],
    {
        if chars[at + i] != prefix[i] {
            assert(rest[i as int] != prefix@[i as int]);
            assert(rest.take(prefix@.len() as int)[i as int] != prefix@[i as int]);
            return false;
        }
    }
    assert(rest.take(prefix@.len() as int) =~= prefix@);
    true
}

/// Replaces every occurrence of `from` in `text` by `to`, from left to right.
pub fn replace(text: &str, from: &str, to: &str) -> (result: String)
    requires
        from@.len() > 0,
    ensures
        result@ == replaced(text@, from@, to@),
{
    let chars = characters(text);
    let pattern = characters(from);
    let mut result = String::new();
    let mut at: usize = 0;
    assert(chars@.skip(0) =~= chars@);
    assert(result@ + replaced(chars@.skip(0), from@, to@) =~= replaced(chars@, from@, to@));
    while at < chars.len()
        invariant
            at <= chars@.len(),
            chars@ == text@,
            pattern@ == from@,
            from@.len() > 0,
            result@ + replaced(chars@.skip(at as int), from@, to@) == replaced(
                text@,
                from@,
                to@,
            ),
        decreases chars@.len() - at,
    {
        let ghost before = result@;
        let ghost rest = chars@.skip(at as int);
        if matches_at(&chars, at, &pattern) {
            result.append(to);
            at = at + pattern.len();
            assert(rest.skip(from@.len() as int) =~= chars@.skip(at as int));
        } else {
            result.push(chars[at]);
            at = at + 1;
            assert(rest.skip(1) =~= chars@.skip(at as int));
        }
        assert(result@ + replaced(chars@.skip(at as int), from@, to@) =~= before + replaced(
            rest,
            from@,
            to@,
        ));
    }
    assert(result@ + replaced(chars@.skip(at as int), from@, to@) =~= result@);
    result
}

/// The number that decimal digits stand for.
pub open spec fn decimal_value(digits: Seq<char>) -> int
    decreases digits.len(),
{
    if digits.len() == 0 {
        0
    } else {
        10 * decimal_value(digits.drop_last()) + (digits.last() as int - '0' as int)
    }
}

/// Decimal notation reads back as the number, is made of digits, and has no leading zero.
pub proof fn law_decimal_reads_back(value: nat)
    ensures
        decimal_value(decimal(value)) == value,
        decimal(value).len() >= 1,
        forall|i: int| 0 <= i < decimal(value).len() ==> '0' <= #[trigger] decimal(value)[i] <= '9',
        decimal(value).len() > 1 ==> decimal(value)[0] != '0',
    decreases value,
{
    reveal_with_fuel(decimal_value, 2);
    let text = decimal(value);
    if value >= 10 {
        let high = decimal(value / 10);
        law_decimal_reads_back(value / 10);
        assert(text.drop_last() =~= high);
        assert(text.last() as int == 48 + value % 10);
        assert(text[0] == high[0]);
        if high.len() == 1 {
            reveal_with_fuel(decimal_value, 2);
            assert(high.drop_last().len() == 0);
            assert(decimal_value(high) == high[0] as int - '0' as int);
        }
    } else {
        assert(text.drop_last().len() == 0);
        assert(text.last() as int == 48 + value);
    }
}

/// `part` stands in `text` at position `at`.
pub open spec fn occurs_at(text: Seq<char>, part: Seq<char>, at: int) -> bool {
    0 <= at && at + part.len() <= text.len() && text.subrange(at, at + part.len()) == part
}

proof fn lemma_occurs(text: Seq<char>, part: Seq<char>, at: int)
    requires
        0 <= at <= text.len(),
    ensures
        starts_with(text.skip(at), part) == occurs_at(text, part, at),
{
    if at + part.len() <= text.len() {
        assert(text.skip(at).take(part.len() as int) =~= text.subrange(at, at + part.len()));
    }
}

/// A text in which nothing is found stays as it is.
pub proof fn law_replace_without_occurrence(text: Seq<char>, from: Seq<char>, to: Seq<char>)
    requires
        forall|at: int| !#[trigger] occurs_at(text, from, at),
    ensures
        replaced(text, from, to) == text,
    decreases text.len(),
{
    if text.len() > 0 && from.len() > 0 {
        lemma_occurs(text, from, 0);
        assert(text.skip(0) =~= text);
        let rest = text.skip(1);
        assert forall|at: int| !#[trigger] occurs_at(rest, from, at) by {
            if occurs_at(rest, from, at) {
                assert(text.subrange(at + 1, at + 1 + from.len()) =~= rest.subrange(
                    at,
                    at + from.len(),
                ));
                assert(occurs_at(text, from, at + 1));
            }
        }
        law_replace_without_occurrence(rest, from, to);
        assert(seq![text[0]] + rest =~= text);
    }
}

/// What is before the first occurrence stays, the occurrence gives way to the replacement, and what
/// is behind it is replaced in turn.
pub proof fn law_replace_first_occurrence(
    front: Seq<char>,
    from: Seq<char>,
    back: Seq<char>,
    to: Seq<char>,
)
    requires
        from.len() > 0,
        forall|at: int| at < front.len() ==> !#[trigger] occurs_at(front + from + back, from, at),
    ensures
        replaced(front + from + back, from, to) == front + to + replaced(back, from, to),
    decreases front.len(),
{
    let text = front + from + back;
    assert(text.skip(0) =~= text);
    lemma_occurs(text, from, 0);
    if front.len() == 0 {
        assert(text.subrange(0, from.len() as int) =~= from);
        assert(text.skip(from.len() as int) =~= back);
        assert(front + to + replaced(back, from, to) =~= to + replaced(back, from, to));
    } else {
        let rest = front.skip(1);
        assert(text.skip(1) =~= rest + from + back);
        assert forall|at: int| at < rest.len() implies !#[trigger] occurs_at(
            rest + from + back,
            from,
            at,
        ) by {
            if occurs_at(rest + from + back, from, at) {
                assert(text.subrange(at + 1, at + 1 + from.len()) =~= (rest + from
                    + back).subrange(at, at + from.len()));
                assert(occurs_at(text, from, at + 1));
            }
        }
        law_replace_first_occurrence(rest, from, back, to);
        assert(seq![text[0]] + (rest + to + replaced(back, from, to)) =~= front + to + replaced(
            back,
            from,
            to,
        ));
    }
}

} // verus!
