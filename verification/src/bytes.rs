//! Small operations on byte strings.

use vstd::prelude::*;

verus! {

/// Appends the bytes of `tail` to `buffer`.
pub fn append(buffer: &mut Vec<u8>, tail: &[u8])
    ensures
        final(buffer)@ == old(buffer)@ + tail@,
{
    buffer.extend_from_slice(tail);
    assert(buffer@ =~= old(buffer)@ + tail@);
}

/// Whether `text` holds the byte `wanted`.
pub fn holds(text: &[u8], wanted: u8) -> (r: bool)
    ensures
        r == text@.contains(wanted),
{
    let mut index: usize = 0;
    while index < text.len()
        invariant
            index <= text.len(),
            !text@.take(index as int).contains(wanted),
        decreases text.len() - index,
    {
        if text[index] == wanted {
            return true;
        }
        assert(text@.take(index + 1) =~= text@.take(index as int).push(text@[index as int]));
        index += 1;
    }
    assert(text@.take(text.len() as int) =~= text@);
    false
}

} // verus!
