//! Building the messages that the player shows.

use vstd::prelude::*;

verus! {

/// The digit `d` as a character.
pub open spec fn digit(d: int) -> char {
    (48 + d) as char
}

/// The decimal representation of `n`, without leading zeros.
pub open spec fn decimal(n: nat) -> Seq<char>
    decreases n,
{
    if n < 10 {
        seq![digit(n as int)]
    } else {
        decimal(n / 10).push(digit((n % 10) as int))
    }
}

/// `prefix` followed by `cause`.
pub fn join(prefix: &str, cause: &str) -> (r: String)
    ensures
        r@ == prefix@ + cause@,
{
    let mut message = String::from_str(prefix);
    message.append(cause);
    message
}

/// `before`, `name`, `between` and `cause` in a row.
pub fn join_named(before: &str, name: &str, between: &str, cause: &str) -> (r: String)
    ensures
        r@ == before@ + name@ + between@ + cause@,
{
    let mut message = String::from_str(before);
    message.append(name);
    message.append(between);
    message.append(cause);
    message
}

fn digit_str(d: u32) -> (r: &'static str)
    requires
        d < 10,
    ensures
        r@ == seq![digit(d as int)],
{
    proof {
        reveal_strlit("0");
        reveal_strlit("1");
        reveal_strlit("2");
        reveal_strlit("3");
        reveal_strlit("4");
        reveal_strlit("5");
        reveal_strlit("6");
        reveal_strlit("7");
        reveal_strlit("8");
        reveal_strlit("9");
    }
    match d {
        0 => "0",
        1 => "1",
        2 => "2",
        3 => "3",
        4 => "4",
        5 => "5",
        6 => "6",
        7 => "7",
        8 => "8",
        _ => "9",
    }
}

/// Writes `n` behind `text`, in decimal.
pub fn append_decimal(text: &mut String, n: u32)
    ensures
        final(text)@ == old(text)@ + decimal(n as nat),
    decreases n,
{
    if n >= 10 {
        append_decimal(text, n / 10);
    }
    text.append(digit_str(n % 10));
}

/// The number that a text of digits reads as.
pub open spec fn read_decimal(text: Seq<char>) -> int
    decreases text.len(),
{
    if text.len() == 0 {
        0
    } else {
        10 * read_decimal(text.drop_last()) + (text.last() as int - '0' as int)
    }
}

/// The decimal representation of a number reads as the number. It is made of digits, at least
/// one of them, and does not start with a zero unless it is a single one.
pub proof fn lemma_decimal_reads_back(n: nat)
    ensures
        read_decimal(decimal(n)) == n,
        decimal(n).len() > 0,
        forall|i: int| 0 <= i < decimal(n).len() ==> '0' <= #[trigger] decimal(n)[i] <= '9',
        decimal(n)[0] == '0' ==> decimal(n).len() == 1,
    decreases n,
{
    reveal_with_fuel(read_decimal, 2);
    if n >= 10 {
        lemma_decimal_reads_back(n / 10);
        let (before, last) = (decimal(n / 10), digit((n % 10) as int));
        assert(before.push(last).drop_last() == before);
        assert(before[0] == '0' ==> n / 10 == 0);
    } else {
        assert(decimal(n).drop_last() == Seq::<char>::empty());
    }
}

} // verus!
