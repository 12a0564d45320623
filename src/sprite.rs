//! Flip-book animation: a list of frames shown one after another, each for
//! an equal share of the cycle length. Times are whole nanoseconds.
use vstd::prelude::*;

verus! {

pub struct SpriteAnimation<F> {
    pub frames: Vec<F>,
    pub current_frame: usize,
    pub elapsed_time: u64,
}

/// The current frame has been shown for its share of a cycle lasting
/// `length` among `n` frames.
pub open spec fn frame_due(n: nat, elapsed: u64, length: u64) -> bool {
    n > 0 && elapsed as int >= length as int / n as int
}

impl<F> SpriteAnimation<F> {
    pub open spec fn wf(&self) -> bool {
        self.current_frame < self.frames@.len()
    }

    /// Starts at the first frame.
    pub fn new(frames: Vec<F>) -> (s: SpriteAnimation<F>)
        ensures
            s.frames@ == frames@,
            s.current_frame == 0,
            s.elapsed_time == 0,
    {
        SpriteAnimation { frames, current_frame: 0, elapsed_time: 0 }
    }

    /// One tick of a cycle lasting `length`: once the current frame has been
    /// shown for its share `length / frames` it moves to the next frame
    /// (wrapping to the first) and restarts its clock; otherwise the clock
    /// advances by `delta`. With no frames the clock only advances.
    pub fn animate(&mut self, delta: u64, length: u64)
        requires
            old(self).elapsed_time + delta <= u64::MAX,
        ensures
            final(self).frames@ == old(self).frames@,
            frame_due(old(self).frames@.len(), old(self).elapsed_time, length) ==> {
                &&& final(self).current_frame == if old(self).current_frame + 1 >= old(
                    self,
                ).frames@.len() {
                    0
                } else {
                    old(self).current_frame + 1
                }
                &&& final(self).elapsed_time == 0
            },
            !(frame_due(old(self).frames@.len(), old(self).elapsed_time, length)) ==> {
                &&& final(self).current_frame == old(self).current_frame
                &&& final(self).elapsed_time == old(self).elapsed_time + delta
            },
            old(self).wf() ==> final(self).wf(),
    {
        let n = self.frames.len();
        if n > 0 && self.elapsed_time >= length / (n as u64) {
            self.current_frame = if self.current_frame >= n - 1 {
                0
            } else {
                self.current_frame + 1
            };
            self.elapsed_time = 0;
        } else {
            self.elapsed_time = self.elapsed_time + delta;
        }
    }

    pub fn get_current_frame(&self) -> (f: &F)
        requires
            self.wf(),
        ensures
            *f == self.frames@[self.current_frame as int],
    {
        &self.frames[self.current_frame]
    }
}

} // verus!
