//! Animations: a fixed sequence of text frames, replayed in cyclic order.
use vstd::prelude::*;

verus! {

/// The step of a full turn that animation step `k` of `n` shows: the rotation
/// of step `k` is `2π · (k mod n) / n`, so step `n` shows the same as step 0.
pub fn rotation_step(k: usize, n: usize) -> (r: usize)
    requires
        n > 0,
    ensures
        r == k % n,
        r < n,
{
    k % n
}

/// Step `n` of an `n`-step rotation comes back to the starting position.
pub proof fn lemma_full_turn(n: nat)
    requires
        n > 0,
    ensures
        (n as int) % (n as int) == 0int % (n as int),
{
    vstd::arithmetic::div_mod::lemma_mod_self_0(n as int);
    vstd::arithmetic::div_mod::lemma_small_mod(0, n);
}

/// Frames computed once, then shown one after another, forever.
pub struct Animation {
    pub frames: Vec<String>,
}

impl Animation {
    /// An animation without frames.
    pub fn new() -> (r: Animation)
        ensures
            r.frames@.len() == 0,
    {
        Animation { frames: Vec::new() }
    }

    /// Appends a frame at the end.
    pub fn push(&mut self, frame: String)
        ensures
            final(self).frames@ == old(self).frames@.push(frame),
    {
        self.frames.push(frame);
    }

    /// Number of frames.
    pub fn len(&self) -> (r: usize)
        ensures
            r == self.frames@.len(),
    {
        self.frames.len()
    }

    /// The tick after `tick`: the position of the next frame, back to the
    /// first one after the last.
    pub fn next_tick(&self, tick: usize) -> (r: usize)
        requires
            tick < self.frames@.len(),
        ensures
            r == (tick + 1) % (self.frames@.len() as int),
            r < self.frames@.len(),
    {
        let n = self.frames.len();
        if tick + 1 == n {
            proof {
                vstd::arithmetic::div_mod::lemma_mod_self_0(n as int);
            }
            0
        } else {
            proof {
                vstd::arithmetic::div_mod::lemma_small_mod((tick + 1) as nat, n as nat);
            }
            tick + 1
        }
    }

    /// The frame shown at tick `tick`: the frames cycle in order.
    pub fn frame_at(&self, tick: usize) -> (r: &String)
        requires
            self.frames@.len() > 0,
        ensures
            *r == self.frames@[(tick as int) % (self.frames@.len() as int)],
    {
        &self.frames[tick % self.frames.len()]
    }
}

/// One full cycle of ticks later the same frame is shown.
pub proof fn lemma_cycle(anim: &Animation, tick: nat)
    requires
        anim.frames@.len() > 0,
    ensures
        anim.frames@[((tick + anim.frames@.len()) % anim.frames@.len()) as int] == anim.frames@[(tick
            % anim.frames@.len()) as int],
{
    vstd::arithmetic::div_mod::lemma_mod_add_multiples_vanish(tick as int, anim.frames@.len() as int);
}

} // verus!
