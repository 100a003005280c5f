//! What a decoder returns, and the two smallest productions: one byte, and
//! one byte of a given value.

use vstd::prelude::*;
use vstd::slice::slice_subrange;

verus! {

/// Why a byte sequence is not in the binary format.
#[derive(Clone, Copy, Debug, PartialEq, Eq, Structural)]
pub enum DecodeError {
    /// An integer runs past its byte budget, or its last byte carries bits
    /// that do not fit.
    MalformedInteger,
    /// A byte that should name a value type names none.
    MalformedType,
    /// A byte that should be an opcode is none.
    MalformedOpcode,
    /// A name is not UTF-8.
    MalformedName,
    /// The input ends early, a fixed byte is not where it has to be, or a
    /// sized section is not used up by its content.
    MalformedFormat,
}

/// Outcome of a production on a byte sequence: the bytes left over and the
/// value, or the error.
pub type Parsed<T> = Result<(Seq<u8>, T), DecodeError>;

/// What a decoder hands back: the rest of the input and the value, or the
/// error.
pub type Decoded<'a, T> = Result<(&'a [u8], T), DecodeError>;

/// The decoder's result `r` is the outcome `p`: the same error, or the same
/// rest and a value that stands for the same.
pub open spec fn decodes_to<T: View>(r: Decoded<T>, p: Parsed<T::V>) -> bool {
    match (r, p) {
        (Ok((rest, v)), Ok((prest, pv))) => rest@ == prest && v@ == pv,
        (Err(e), Err(pe)) => e == pe,
        _ => false,
    }
}

/// What the items of a sequence stand for, one by one.
pub open spec fn views<T: View>(s: Seq<T>) -> Seq<T::V> {
    Seq::new(s.len(), |i: int| s[i]@)
}

/// The decoder's result `r` is the outcome `p`: the same error, or the same
/// rest and items that stand for the same, one by one.
pub open spec fn decodes_to_seq<T: View>(r: Decoded<Vec<T>>, p: Parsed<Seq<T::V>>) -> bool {
    match (r, p) {
        (Ok((rest, v)), Ok((prest, pv))) => rest@ == prest && views(v@) == pv,
        (Err(e), Err(pe)) => e == pe,
        _ => false,
    }
}

/// Every result that the decoder `f` can give is the outcome of the
/// production `p` on the same input.
pub open spec fn computes<'a, T: View, F: Fn(&'a [u8]) -> Decoded<'a, T>>(
    f: F,
    p: spec_fn(Seq<u8>) -> Parsed<T::V>,
) -> bool {
    forall|s: &'a [u8], r: Decoded<'a, T>| #[trigger] f.ensures((s,), r) ==> decodes_to(r, p(s@))
}

/// One byte.
pub open spec fn spec_byte(s: Seq<u8>) -> Parsed<u8> {
    if s.len() > 0 {
        Ok((s.skip(1), s[0]))
    } else {
        Err(DecodeError::MalformedFormat)
    }
}

/// The byte `b`.
pub open spec fn spec_tag(s: Seq<u8>, b: u8) -> Parsed<()> {
    if s.len() > 0 && s[0] == b {
        Ok((s.skip(1), ()))
    } else {
        Err(DecodeError::MalformedFormat)
    }
}

/// The input without its first `n` bytes.
pub fn advance<'a>(input: &'a [u8], n: usize) -> (rest: &'a [u8])
    requires
        n <= input@.len(),
    ensures
        rest@ == input@.skip(n as int),
{
    slice_subrange(input, n, input.len())
}

/// Decodes one byte.
pub fn parse_byte<'a>(input: &'a [u8]) -> (r: Decoded<'a, u8>)
    ensures
        decodes_to(r, spec_byte(input@)),
{
    if input.len() > 0 {
        Ok((advance(input, 1), input[0]))
    } else {
        Err(DecodeError::MalformedFormat)
    }
}

/// Accepts the byte `b` and nothing else.
pub fn parse_tag<'a>(input: &'a [u8], b: u8) -> (r: Decoded<'a, ()>)
    ensures
        decodes_to(r, spec_tag(input@, b)),
{
    if input.len() > 0 && input[0] == b {
        Ok((advance(input, 1), ()))
    } else {
        Err(DecodeError::MalformedFormat)
    }
}

} // verus!
