use vstd::prelude::*;

verus! {

/// Relies on String::push: appends the given character to the end of the
/// string.
#[verifier::external_body]
pub(crate) fn push_char(s: &mut String, c: char)
    ensures
        final(s)@ == old(s)@.push(c),
{
    s.push(c);
}

/// A `String` holding exactly the characters of `characters`, in order.
pub(crate) fn chars_to_string(characters: &Vec<char>) -> (s: String)
    ensures
        s@ == characters@,
{
    let mut s = String::new();
    let mut i: usize = 0;
    proof {
        assert(s@ =~= characters@.take(0));
    }
    while i < characters.len()
        invariant
            i <= characters@.len(),
            s@ == characters@.take(i as int),
        decreases characters@.len() - i,
    {
        push_char(&mut s, characters[i]);
        i = i + 1;
        proof {
            assert(s@ =~= characters@.take(i as int));
        }
    }
    proof {
        assert(characters@.take(characters@.len() as int) =~= characters@);
    }
    s
}

/// The character for the decimal digit `d`.
pub open spec fn digit_char(d: int) -> char {
    if d == 0 {
        '0'
    } else if d == 1 {
        '1'
    } else if d == 2 {
        '2'
    } else if d == 3 {
        '3'
    } else if d == 4 {
        '4'
    } else if d == 5 {
        '5'
    } else if d == 6 {
        '6'
    } else if d == 7 {
        '7'
    } else if d == 8 {
        '8'
    } else {
        '9'
    }
}

/// The decimal numeral of `n`: most significant digit first, with no leading
/// zero except on zero itself.
pub open spec fn decimal_digits(n: int) -> Seq<char>
    decreases n,
{
    if n < 10 {
        seq![digit_char(n)]
    } else {
        decimal_digits(n / 10).push(digit_char(n % 10))
    }
}

/// The character for the decimal digit `d`.
fn decimal_digit(d: usize) -> (c: char)
    requires
        d < 10,
    ensures
        c == digit_char(d as int),
{
    match d {
        0 => '0',
        1 => '1',
        2 => '2',
        3 => '3',
        4 => '4',
        5 => '5',
        6 => '6',
        7 => '7',
        8 => '8',
        _ => '9',
    }
}

/// The decimal numeral of `n`, as a string.
pub fn decimal_string(n: usize) -> (s: String)
    ensures
        s@ == decimal_digits(n as int),
    decreases n,
{
    if n < 10 {
        let mut s = String::new();
        push_char(&mut s, decimal_digit(n));
        proof {
            assert(s@ =~= seq![digit_char(n as int)]);
        }
        s
    } else {
        let mut s = decimal_string(n / 10);
        push_char(&mut s, decimal_digit(n % 10));
        s
    }
}

} // verus!
