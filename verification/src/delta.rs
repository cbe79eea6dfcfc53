//! Delta filter decoder: reverses the predictor `out[i] = in[i] +
//! out[i - dist]` (bytes before the stream count as zero).

use vstd::prelude::*;

verus! {

/// Decodes the buffer in place.  Each output byte is the input byte plus
/// the output byte `dist` positions earlier, modulo 256.
pub fn delta_decode(buf: &mut Vec<u8>, dist: usize)
    requires
        dist >= 1,
    ensures
        final(buf)@.len() == old(buf)@.len(),
        forall|i: int|
            0 <= i < old(buf)@.len() ==> #[trigger] final(buf)@[i] == ((old(buf)@[i] + (if i
                >= dist {
                final(buf)@[i - dist] as int
            } else {
                0int
            })) % 256),
{
    let n = buf.len();
    let mut i: usize = 0;
    while i < n
        invariant
            dist >= 1,
            i <= n,
            buf@.len() == n == old(buf)@.len(),
            forall|j: int| i <= j < n ==> #[trigger] buf@[j] == old(buf)@[j],
            forall|j: int|
                0 <= j < i ==> #[trigger] buf@[j] == ((old(buf)@[j] + (if j >= dist {
                    buf@[j - dist] as int
                } else {
                    0int
                })) % 256),
        decreases n - i,
    {
        let prev: u8 = if i >= dist {
            buf[i - dist]
        } else {
            0
        };
        let b = buf[i];
        buf.set(i, b.wrapping_add(prev));
        i += 1;
    }
}

} // verus!
