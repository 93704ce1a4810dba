//! Byte queues: what a connection holds for the user in each direction.

use std::collections::VecDeque;
use vstd::prelude::*;

verus! {

/// Appends all of `data` behind what the queue holds.
pub fn append_bytes(queue: &mut VecDeque<u8>, data: &[u8])
    ensures
        final(queue)@ == old(queue)@ + data@,
{
    let mut i: usize = 0;
    while i < data.len()
        invariant
            i <= data@.len(),
            queue@ == old(queue)@ + data@.take(i as int),
        decreases data@.len() - i,
    {
        queue.push_back(data[i]);
        assert(data@.take(i + 1) == data@.take(i as int).push(data@[i as int]));
        i += 1;
    }
    assert(data@.take(i as int) == data@);
}

/// Removes the first `n` bytes of the queue and returns them in order.
pub fn take_front(queue: &mut VecDeque<u8>, n: usize) -> (out: Vec<u8>)
    requires
        n <= old(queue)@.len(),
    ensures
        out@ == old(queue)@.take(n as int),
        final(queue)@ == old(queue)@.skip(n as int),
{
    let mut out: Vec<u8> = Vec::new();
    let mut i: usize = 0;
    while i < n
        invariant
            i <= n <= old(queue)@.len(),
            out@ == old(queue)@.take(i as int),
            queue@ == old(queue)@.skip(i as int),
        decreases n - i,
    {
        let front = queue.pop_front();
        match front {
            Some(b) => {
                out.push(b);
            },
            None => {},
        }
        assert(old(queue)@.take(i + 1) == old(queue)@.take(i as int).push(old(queue)@[i as int]));
        assert(old(queue)@.skip(i + 1) == old(queue)@.skip(i as int).subrange(
            1,
            old(queue)@.skip(i as int).len() as int,
        ));
        i += 1;
    }
    out
}

} // verus!
