use vstd::prelude::*;

verus! {

/// A rate limit on player actions: after an accepted action, no other is
/// accepted until `window` milliseconds have passed. Time is fed in by the
/// frame, as the milliseconds since the previous frame.
pub struct Debounce {
    pub window: u64,
    /// Time since the last accepted action, held at `window` once reached.
    pub elapsed: u64,
}

/// The elapsed time after `delta` more milliseconds, held at `window`.
pub open spec fn ticked(elapsed: int, window: int, delta: int) -> int {
    if elapsed + delta >= window {
        window
    } else {
        elapsed + delta
    }
}

/// Whether a frame that brings `delta` milliseconds and, if `input`, an
/// action, has that action accepted.
pub open spec fn accepts(elapsed: int, window: int, delta: int, input: bool) -> bool {
    input && ticked(elapsed, window, delta) >= window
}

/// The elapsed time after such a frame: it starts again from zero when the
/// action was accepted.
pub open spec fn after(elapsed: int, window: int, delta: int, input: bool) -> int {
    if accepts(elapsed, window, delta, input) {
        0
    } else {
        ticked(elapsed, window, delta)
    }
}

/// How many actions a run of frames, each a (delta, input) pair, has accepted.
pub open spec fn accepted_count(elapsed: int, window: int, frames: Seq<(u64, bool)>) -> nat
    decreases frames.len(),
{
    if frames.len() == 0 {
        0
    } else {
        let f = frames[0];
        (if accepts(elapsed, window, f.0 as int, f.1) {
            1nat
        } else {
            0nat
        }) + accepted_count(after(elapsed, window, f.0 as int, f.1), window, frames.drop_first())
    }
}

/// The milliseconds that a run of frames spans.
pub open spec fn total_time(frames: Seq<(u64, bool)>) -> int
    decreases frames.len(),
{
    if frames.len() == 0 {
        0
    } else {
        frames[0].0 + total_time(frames.drop_first())
    }
}

impl Debounce {
    pub open spec fn wf(&self) -> bool {
        self.elapsed <= self.window
    }

    /// A gate with the given window, whose clock starts now.
    pub fn new(window: u64) -> (r: Debounce)
        ensures
            r.wf(),
            r.window == window,
            r.elapsed == 0,
    {
        Debounce { window, elapsed: 0 }
    }

    /// One frame: `delta` milliseconds have passed and `input` says whether
    /// an action is offered. Returns whether it is accepted.
    pub fn poll(&mut self, delta: u64, input: bool) -> (r: bool)
        requires
            old(self).wf(),
        ensures
            final(self).wf(),
            final(self).window == old(self).window,
            r == accepts(old(self).elapsed as int, old(self).window as int, delta as int, input),
            final(self).elapsed == after(
                old(self).elapsed as int,
                old(self).window as int,
                delta as int,
                input,
            ),
    {
        if delta >= self.window - self.elapsed {
            self.elapsed = self.window;
        } else {
            self.elapsed = self.elapsed + delta;
        }
        if input && self.elapsed >= self.window {
            self.elapsed = 0;
            true
        } else {
            false
        }
    }
}

/// Frames that together span less than the window from a clock that is
/// also short of it accept nothing.
proof fn lemma_quiet(elapsed: int, window: int, frames: Seq<(u64, bool)>)
    requires
        0 <= elapsed,
        elapsed + total_time(frames) < window,
    ensures
        accepted_count(elapsed, window, frames) == 0,
    decreases frames.len(),
{
    if frames.len() > 0 {
        lemma_total_nonneg(frames.drop_first());
        lemma_quiet(elapsed + frames[0].0, window, frames.drop_first());
    }
}

/// However many actions come in frames that follow one another within less
/// than the window, at most one gets through; and the first one does when
/// the rate limit lets it.
pub proof fn lemma_burst_accepts_once(g: Debounce, frames: Seq<(u64, bool)>)
    requires
        g.wf(),
        frames.len() >= 1,
        total_time(frames.drop_first()) < g.window,
    ensures
        accepted_count(g.elapsed as int, g.window as int, frames) <= 1,
        accepts(g.elapsed as int, g.window as int, frames[0].0 as int, frames[0].1) ==> accepted_count(
            g.elapsed as int,
            g.window as int,
            frames,
        ) == 1,
    decreases frames.len(),
{
    let f = frames[0];
    let rest = frames.drop_first();
    let e = after(g.elapsed as int, g.window as int, f.0 as int, f.1);
    if accepts(g.elapsed as int, g.window as int, f.0 as int, f.1) {
        lemma_quiet(0, g.window as int, rest);
    } else if rest.len() > 0 {
        lemma_total_nonneg(rest.drop_first());
        let h = Debounce { window: g.window, elapsed: e as u64 };
        assert(h.elapsed == e);
        lemma_burst_accepts_once(h, rest);
        assert(accepted_count(g.elapsed as int, g.window as int, frames) == accepted_count(
            e,
            g.window as int,
            rest,
        ));
    } else {
        assert(accepted_count(e, g.window as int, rest) == 0);
    }
}

proof fn lemma_total_nonneg(frames: Seq<(u64, bool)>)
    ensures
        total_time(frames) >= 0,
    decreases frames.len(),
{
    if frames.len() > 0 {
        lemma_total_nonneg(frames.drop_first());
    }
}

} // verus!
