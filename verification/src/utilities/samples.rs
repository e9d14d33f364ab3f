//! The alphabets that passwords are drawn from.

use vstd::prelude::*;

verus! {

/// The alphabets a password can be drawn from.
#[derive(Clone, Copy, Debug, PartialEq, Eq, Structural)]
pub enum PasswordSample {
    /// Letters, digits and the symbols of `symbols`.
    Ascii,
    /// Letters and digits.
    NoSymbols,
    /// The digits and `A` to `F`.
    Hex,
}

/// The characters from `first` to `last`, both included, in code order.
pub open spec fn char_range(first: char, last: char) -> Seq<char> {
    Seq::new((last as int - first as int + 1) as nat, |i: int| (first as int + i) as char)
}

/// The symbols of the `Ascii` sample, in the order they are listed in.
pub open spec fn symbols() -> Seq<char> {
    seq![
        '!', '@', '#', '$', '%', '^', '&', '(', ')', '-', '+', '=', '~',
        '[', ']', '{', '}', '/', '|', ':', ';', '?', ',', '.', '<', '>',
    ]
}

/// Lower-case letters, upper-case letters, digits.
pub open spec fn alphanumerics() -> Seq<char> {
    char_range('a', 'z') + char_range('A', 'Z') + char_range('0', '9')
}

/// The characters of a sample, in order.
pub open spec fn sample_of(sample: PasswordSample) -> Seq<char> {
    match sample {
        PasswordSample::Ascii => alphanumerics() + symbols(),
        PasswordSample::NoSymbols => alphanumerics(),
        PasswordSample::Hex => char_range('0', '9') + char_range('A', 'F'),
    }
}

/// Appends the characters from `first` to `last` to `out`.
pub(crate) fn push_range(out: &mut Vec<char>, first: u8, last: u8)
    requires
        first <= last < 128,
    ensures
        final(out)@ == old(out)@ + char_range(first as char, last as char),
{
    let mut code: u8 = first;
    let ghost before = out@;
    while code <= last
        invariant
            first <= code <= last + 1,
            last < 128,
            before == old(out)@,
            out@ =~= before + char_range(first as char, last as char).take(code - first),
        decreases last + 1 - code,
    {
        out.push(code as char);
        code = code + 1;
    }
    assert(char_range(first as char, last as char).take(code - first) =~= char_range(
        first as char,
        last as char,
    ));
}

/// The characters of a sample: `a` to `z`, `A` to `Z`, `0` to `9` and the
/// symbols for `Ascii`; the same without symbols for `NoSymbols`; `0` to `9`
/// and `A` to `F` for `Hex`.
pub fn get_sample(sample: PasswordSample) -> (r: Vec<char>)
    ensures
        r@ == sample_of(sample),
{
    let mut out: Vec<char> = Vec::new();
    match sample {
        PasswordSample::Hex => {
            push_range(&mut out, 48, 57);
            push_range(&mut out, 65, 70);
            assert(out@ =~= sample_of(sample));
        },
        _ => {
            push_range(&mut out, 97, 122);
            push_range(&mut out, 65, 90);
            push_range(&mut out, 48, 57);
            assert(out@ =~= alphanumerics());
            if sample == PasswordSample::Ascii {
                let marks: [char; 26] = [
                    '!', '@', '#', '$', '%', '^', '&', '(', ')', '-', '+', '=', '~',
                    '[', ']', '{', '}', '/', '|', ':', ';', '?', ',', '.', '<', '>',
                ];
                let mut i: usize = 0;
                let ghost before = out@;
                while i < 26
                    invariant
                        i <= 26,
                        marks@ =~= symbols(),
                        out@ =~= before + symbols().take(i as int),
                    decreases 26 - i,
                {
                    out.push(marks[i]);
                    i = i + 1;
                }
                assert(symbols().take(26) =~= symbols());
            }
        },
    }
    out
}

} // verus!
