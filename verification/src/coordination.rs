//! Keeping answers that arrive late from being taken for current ones:
//! numbered requests, the window size waiting to be saved, and what closing
//! the window asks for.

use vstd::prelude::*;

verus! {

/// The number after `n`, going round to 0 after the largest `u64`.
pub open spec fn wrapping_next(n: u64) -> u64 {
    if n == u64::MAX {
        0
    } else {
        (n + 1) as u64
    }
}

/// Numbers a new request: the counter moves on and the new number is
/// returned.
pub fn next_generation(counter: &mut u64) -> (res: u64)
    ensures
        *final(counter) == wrapping_next(*old(counter)),
        res == *final(counter),
{
    *counter = counter.wrapping_add(1);
    *counter
}

/// An answer is current when it carries the number of the latest request.
pub fn response_is_current(latest: u64, generation: u64) -> (res: bool)
    ensures
        res == (latest == generation),
{
    latest == generation
}

/// A window size waiting to learn whether the window is maximized, with the
/// number of the resize that produced it.
pub struct PendingWindowResize<S> {
    pub size: S,
    pub generation: u64,
}

/// The resizes of the window: the number of the latest one and the size
/// still waiting to be recorded, if any.
pub struct WindowResizeTracker<S> {
    pub generation: u64,
    pub pending: Option<PendingWindowResize<S>>,
}

impl<S> WindowResizeTracker<S> {
    /// No resize yet.
    pub fn new() -> (res: Self)
        ensures
            res.generation == 0,
            res.pending is None,
    {
        WindowResizeTracker { generation: 0, pending: None }
    }

    /// Remembers a new size under a new number, which it returns; any size
    /// still waiting is replaced.
    pub fn remember(&mut self, size: S) -> (res: u64)
        ensures
            final(self).generation == wrapping_next(old(self).generation),
            res == final(self).generation,
            final(self).pending matches Some(p) && p.size == size && p.generation == res,
    {
        let generation = next_generation(&mut self.generation);
        self.pending = Some(PendingWindowResize { size, generation });
        generation
    }

    /// Drops the waiting size (when there is no window to ask about).
    pub fn forget(&mut self)
        ensures
            final(self).generation == old(self).generation,
            final(self).pending is None,
    {
        self.pending = None;
    }

    /// Takes the answer to a resize: it counts only if it answers the latest
    /// resize and that resize is still waiting; then the wait ends.
    pub fn accept_resolution(&mut self, generation: u64) -> (res: bool)
        ensures
            res == (generation == old(self).generation && (old(self).pending matches Some(p)
                && p.generation == generation)),
            final(self).generation == old(self).generation,
            res ==> final(self).pending is None,
            !res ==> final(self).pending == old(self).pending,
    {
        let waiting = match &self.pending {
            Some(p) => p.generation == generation,
            None => false,
        };
        if generation != self.generation || !waiting {
            return false;
        }
        self.pending = None;
        true
    }

    /// Before the window closes: the size still waiting, if it is the
    /// latest one; either way nothing waits any more.
    pub fn take_for_exit(&mut self) -> (res: Option<S>)
        ensures
            final(self).pending is None,
            final(self).generation == old(self).generation,
            match old(self).pending {
                Some(p) => if p.generation == old(self).generation {
                    res == Some(p.size)
                } else {
                    res is None
                },
                None => res is None,
            },
    {
        let pending = self.pending.take();
        match pending {
            Some(p) => if p.generation == self.generation {
                Some(p.size)
            } else {
                None
            },
            None => None,
        }
    }
}

/// What a stop of the engine asks of the window.
#[derive(Clone, Copy, Debug, PartialEq, Eq, Structural)]
pub enum ExitPersistenceAction {
    /// The application exits: first learn whether the window is maximized,
    /// then save the settings.
    ResolveMaximizedStatus,
    /// The application goes on.
    StayOpen,
}

/// Closing the window only when the application was asked to exit.
pub fn exit_persistence_action(exit_requested: bool) -> (res: ExitPersistenceAction)
    ensures
        exit_requested <==> res == ExitPersistenceAction::ResolveMaximizedStatus,
{
    if exit_requested {
        ExitPersistenceAction::ResolveMaximizedStatus
    } else {
        ExitPersistenceAction::StayOpen
    }
}

/// A screenshot's RGBA buffer must hold four bytes for each pixel.
pub fn validate_screenshot_rgba_buffer(width: u32, height: u32, len: usize) -> (res: Result<(), String>)
    ensures
        width * height * 4 > usize::MAX ==> (res matches Err(e) && e@
            == "screenshot dimensions are too large"@),
        width * height * 4 <= usize::MAX && len != width * height * 4 ==> (res matches Err(e) && e@
            == "screenshot RGBA buffer does not match its dimensions"@),
        width * height * 4 <= usize::MAX && len == width * height * 4 ==> res is Ok,
{
    let w = width as usize;
    let h = height as usize;
    let pixels = w.checked_mul(h);
    let expected = match pixels {
        Some(p) => p.checked_mul(4),
        None => None,
    };
    match expected {
        None => {
            proof {
                if pixels is None {
                    assert(w * h > usize::MAX);
                    assert(w * h * 4 > usize::MAX) by (nonlinear_arith)
                        requires
                            w * h > usize::MAX,
                    ;
                }
            }
            Err(String::from_str("screenshot dimensions are too large"))
        },
        Some(n) => if len != n {
            Err(String::from_str("screenshot RGBA buffer does not match its dimensions"))
        } else {
            Ok(())
        },
    }
}

} // verus!
