//! Frame cycler: hands out the frames of an animation one by one, wrapping
//! around at the end.
use vstd::prelude::*;

use crate::text::{chars_of, string_of};

verus! {

pub struct Framer {
    frames: Vec<char>,
    curr: usize,
}

/// The position that follows `pos` in an animation of `count` frames.
pub open spec fn next_position(pos: nat, count: nat) -> nat {
    if count == 0 {
        0
    } else {
        (pos + 1) % count
    }
}

/// The position reached from `pos` after `n` frames have been handed out.
pub open spec fn advanced(pos: nat, count: nat, n: nat) -> nat
    decreases n,
{
    if n == 0 {
        pos
    } else {
        next_position(advanced(pos, count, (n - 1) as nat), count)
    }
}

impl Framer {
    #[verifier::type_invariant]
    spec fn well_formed(self) -> bool {
        if self.frames.len() == 0 {
            self.curr == 0
        } else {
            self.curr < self.frames.len()
        }
    }

    /// The frames, in order.
    pub closed spec fn frames(self) -> Seq<char> {
        self.frames@
    }

    /// The index of the frame that the next `get` returns.
    pub closed spec fn position(self) -> nat {
        self.curr as nat
    }

    pub fn new(frames: &str) -> (r: Self)
        ensures
            r.frames() == frames@,
            r.position() == 0,
    {
        Framer { frames: chars_of(frames), curr: 0 }
    }

    /// Returns the current frame and advances to the next one.
    pub fn get(&mut self) -> (r: String)
        ensures
            final(self).frames() == old(self).frames(),
            old(self).frames().len() > 0 ==> old(self).position() < old(self).frames().len(),
            r@ == (if old(self).frames().len() == 0 {
                Seq::<char>::empty()
            } else {
                seq![old(self).frames()[old(self).position() as int]]
            }),
            final(self).position() == next_position(
                old(self).position(),
                old(self).frames().len(),
            ),
    {
        proof {
            use_type_invariant(&*self);
        }
        let count = self.frames.len();
        if count == 0 {
            // Should be impossible after config validation; guard anyway.
            self.curr = 0;
            return string_of(&Vec::new());
        }
        let frame = self.frames[self.curr];
        self.curr = (self.curr + 1) % count;
        string_of(&vec![frame])
    }
}

/// Frames come out in order and wrap around: starting from the first frame,
/// after `n` frames the next one is frame `n` modulo the frame count.
pub proof fn lemma_frames_cycle(count: nat, n: nat)
    requires
        count > 0,
    ensures
        advanced(0, count, n) == n % count,
    decreases n,
{
    if n == 0 {
        vstd::arithmetic::div_mod::lemma_small_mod(0, count);
    } else {
        let m = (n - 1) as nat;
        lemma_frames_cycle(count, m);
        assert(advanced(0, count, n) == ((m % count) + 1) % count);
        vstd::arithmetic::div_mod::lemma_add_mod_noop_right(1, m as int, count as int);
    }
}

} // verus!
