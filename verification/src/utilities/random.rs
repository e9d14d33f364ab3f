//! Random numbers and confirmation codes.

use crate::errors::ErrorKind;
use crate::utilities::samples::{char_range, push_range};
use rand::seq::{IndexedRandom, IteratorRandom};
use vstd::prelude::*;

verus! {

/// Calls `String::push`, which appends one character to the text.
#[verifier::external_body]
fn push_char(text: &mut String, c: char)
    ensures
        final(text)@ == old(text)@.push(c),
{
    text.push(c);
}

/// Calls `IteratorRandom::choose` on the numbers from `low` to `high`, with
/// the generator that `rand::rng` hands out. It returns one of the numbers,
/// chosen at random, and `None` only where there is none to choose from.
#[verifier::external_body]
fn choose_in_range(low: u8, high: u8) -> (r: Option<u8>)
    ensures
        r is Some <==> low <= high,
        r matches Some(n) ==> low <= n <= high,
{
    (low..=high).choose(&mut rand::rng())
}

/// Calls `IndexedRandom::choose` on the slice, with the generator that
/// `rand::rng` hands out. It returns one element of the slice, chosen at
/// random, and `None` only where the slice is empty.
#[verifier::external_body]
fn choose_char(sample: &[char]) -> (r: Option<char>)
    ensures
        r is Some <==> sample@.len() > 0,
        r matches Some(c) ==> sample@.contains(c),
{
    sample.choose(&mut rand::rng()).copied()
}

/// The character of a decimal digit.
pub open spec fn digit(value: nat) -> char
    recommends
        value < 10,
{
    ('0' as nat + value) as char
}

/// A number in decimal, without leading zeros.
pub open spec fn decimal(n: nat) -> Seq<char>
    decreases n,
{
    if n < 10 {
        seq![digit(n)]
    } else {
        decimal(n / 10).push(digit(n % 10))
    }
}

/// The character of a decimal digit.
fn digit_char(value: u8) -> (r: char)
    requires
        value < 10,
    ensures
        r == digit(value as nat),
{
    (48 + value) as char
}

/// The number in decimal.
pub fn number_string(n: u8) -> (r: String)
    ensures
        r@ == decimal(n as nat),
{
    let mut text = String::new();
    if n >= 100 {
        push_char(&mut text, digit_char(n / 100));
    }
    if n >= 10 {
        push_char(&mut text, digit_char((n / 10) % 10));
    }
    push_char(&mut text, digit_char(n % 10));
    proof {
        let m = n as nat;
        reveal_with_fuel(decimal, 3);
        if m >= 100 {
            assert((m / 10) / 10 == m / 100);
            assert(text@ =~= decimal(m));
        } else if m >= 10 {
            assert(text@ =~= decimal(m));
        } else {
            assert(text@ =~= decimal(m));
        }
    }
    text
}

/// A number drawn at random from 32 to 72, both included, in decimal.
pub fn get_ran_string_number() -> (r: String)
    ensures
        exists|n: nat| 32 <= n <= 72 && r@ == #[trigger] decimal(n),
        r@.len() == 2,
{
    let n: u8 = match choose_in_range(32, 72) {
        Some(n) => n,
        None => 32,
    };
    let text = number_string(n);
    proof {
        reveal_with_fuel(decimal, 2);
        assert(text@ == decimal(n as nat));
    }
    text
}

/// The characters that a confirmation code is made of.
pub open spec fn code_sample() -> Seq<char> {
    char_range('1', '9')
}

/// Whether the text is a confirmation code: six digits, none of them zero.
pub open spec fn is_code(text: Seq<char>) -> bool {
    text.len() == 6 && forall|i: int| 0 <= i < text.len() ==> code_sample().contains(text[i])
}

/// A confirmation code drawn at random.
pub fn confirmation_code() -> (r: String)
    ensures
        is_code(r@),
{
    let mut sample: Vec<char> = Vec::new();
    push_range(&mut sample, 49, 57);
    assert(sample@ =~= code_sample());
    let mut code = String::new();
    let mut count: usize = 0;
    while count < 6
        invariant
            count <= 6,
            sample@ == code_sample(),
            sample@.len() == 9,
            code@.len() == count,
            forall|i: int| 0 <= i < code@.len() ==> code_sample().contains(code@[i]),
        decreases 6 - count,
    {
        let c: char = match choose_char(sample.as_slice()) {
            Some(c) => c,
            None => '1',
        };
        push_char(&mut code, c);
        count = count + 1;
    }
    code
}

/// Holds what the user entered against the confirmation code: anything but
/// the code itself fails with `ConfirmationNotMatch`.
pub fn confirm(confirmation: &String, value: &String) -> (r: Result<(), ErrorKind>)
    ensures
        value@ == confirmation@ ==> r is Ok,
        value@ != confirmation@ ==> r == Err::<(), ErrorKind>(ErrorKind::ConfirmationNotMatch),
{
    if *value == *confirmation {
        Ok(())
    } else {
        Err(ErrorKind::ConfirmationNotMatch)
    }
}

} // verus!
