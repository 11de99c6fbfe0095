use vstd::prelude::*;

verus! {

/// How many leading bytes of a file are inspected to tell binary from text.
pub const BINARY_PREFIX_LEN: usize = 256;

/// A byte that marks a file as binary: NUL, or the DEL control byte.
pub open spec fn is_binary_marker(b: u8) -> bool {
    b == 0u8 || b == 0x7Fu8
}

/// A file is binary when a marker byte occurs among its first
/// `BINARY_PREFIX_LEN` bytes.
pub open spec fn binary_spec(contents: Seq<u8>) -> bool {
    exists|i: int| 0 <= i < contents.len() && i < BINARY_PREFIX_LEN && is_binary_marker(#[trigger] contents[i])
}

/// Classifies file contents as binary (`true`) or text (`false`).
///
/// Both NUL (0x00) and DEL (0x7F) count as binary markers; only the first
/// `BINARY_PREFIX_LEN` bytes are inspected.
pub fn is_binary(contents: &[u8]) -> (r: bool)
    ensures
        r == binary_spec(contents@),
{
    let n = if contents.len() < BINARY_PREFIX_LEN { contents.len() } else { BINARY_PREFIX_LEN };
    let mut i: usize = 0;
    while i < n
        invariant
            n <= contents.len(),
            n <= BINARY_PREFIX_LEN,
            n == contents.len() || n == BINARY_PREFIX_LEN,
            i <= n,
            forall|k: int| 0 <= k < i ==> !is_binary_marker(#[trigger] contents@[k]),
        decreases n - i,
    {
        if contents[i] == 0u8 || contents[i] == 0x7Fu8 {
            return true;
        }
        i += 1;
    }
    false
}

} // verus!
