//! The decision logic of the interactive bridge.
//!
//! While the bridge pipes the user's terminal to the child and back, each
//! slice read from the user is scanned for the escape code. Everything
//! ahead of the first escape byte is forwarded verbatim; the escape byte
//! itself and whatever follows it are never forwarded, and seeing it ends
//! the bridge.

use vstd::prelude::*;

verus! {

/// The escape byte that ends the interactive bridge unless another one is
/// chosen: control-`]`.
pub const DEFAULT_ESCAPE_CODE: u8 = 0x1D;

/// Splits user input at the escape code: returns the bytes to forward to
/// the child and whether the escape code was seen. The forwarded bytes are
/// exactly those ahead of the first escape byte (all of them when there is
/// none), and never include the escape byte itself.
pub fn split_at_escape(input: &[u8], escape: u8) -> (r: (Vec<u8>, bool))
    ensures
        r.1 == input@.contains(escape),
        r.1 ==> exists|i: int|
            {
                &&& 0 <= i < input@.len()
                &&& input@[i] == escape
                &&& (forall|j: int| 0 <= j < i ==> input@[j] != escape)
                &&& r.0@ == input@.take(i)
            },
        !r.1 ==> r.0@ == input@,
{
    let mut fore: Vec<u8> = Vec::new();
    let mut i: usize = 0;
    assert(input@.len() == input.len());
    while i < input.len()
        invariant
            0 <= i <= input@.len(),
            fore@ == input@.take(i as int),
            forall|j: int| 0 <= j < i ==> input@[j] != escape,
        decreases input@.len() - i,
    {
        let b = input[i];
        if b == escape {
            proof {
                assert(input@.contains(input@[i as int]));
            }
            return (fore, true);
        }
        fore.push(b);
        proof {
            assert(input@.take(i + 1) =~= input@.take(i as int).push(input@[i as int]));
        }
        i = i + 1;
    }
    proof {
        assert(fore@ =~= input@);
        if input@.contains(escape) {
            let w = choose|w: int| 0 <= w < input@.len() && input@[w] == escape;
            assert(input@[w] != escape);
        }
    }
    (fore, false)
}

} // verus!
