use vstd::prelude::*;

verus! {

/// Error of the digit source: the fetched content is unusable. The shell in
/// front of this library reports a failed network fetch with the same value,
/// since either way no reference digits are available and a session cannot
/// start.
#[derive(Clone, Copy, PartialEq, Eq, Structural, Debug)]
pub enum SourceError {
    Unavailable,
}

/// Whether a byte is an ASCII decimal digit.
pub open spec fn is_ascii_digit(b: u8) -> bool {
    48 <= b <= 57
}

/// The numeric value of an ASCII decimal digit.
pub open spec fn digit_value(b: u8) -> int {
    b - 48
}

/// Decodes a block of reference digits as the digit source delivers it: one
/// ASCII digit per byte. Succeeds, with one numeric digit per input byte,
/// exactly when every byte is an ASCII digit; any other byte makes the
/// content malformed.
pub fn parse_digits(bytes: &Vec<u8>) -> (r: Result<Vec<u8>, SourceError>)
    ensures
        match r {
            Ok(ds) => {
                &&& forall|i: int| 0 <= i < bytes@.len() ==> is_ascii_digit(#[trigger] bytes@[i])
                &&& ds@.len() == bytes@.len()
                &&& forall|i: int|
                    0 <= i < ds@.len() ==> #[trigger] ds@[i] == digit_value(bytes@[i]) && ds@[i]
                        <= 9
            },
            Err(e) => {
                &&& e == SourceError::Unavailable
                &&& exists|i: int| 0 <= i < bytes@.len() && !is_ascii_digit(#[trigger] bytes@[i])
            },
        },
{
    let mut ds: Vec<u8> = Vec::new();
    let mut i: usize = 0;
    while i < bytes.len()
        invariant
            i <= bytes@.len(),
            ds@.len() == i,
            forall|j: int| 0 <= j < i ==> is_ascii_digit(#[trigger] bytes@[j]),
            forall|j: int|
                0 <= j < i ==> #[trigger] ds@[j] == digit_value(bytes@[j]) && ds@[j] <= 9,
        decreases bytes@.len() - i,
    {
        let b = bytes[i];
        if b < 48 || b > 57 {
            proof {
                assert(!is_ascii_digit(bytes@[i as int]));
            }
            return Err(SourceError::Unavailable);
        }
        ds.push(b - 48);
        i = i + 1;
    }
    Ok(ds)
}

} // verus!
