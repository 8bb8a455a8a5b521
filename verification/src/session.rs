use vstd::prelude::*;
use crate::error::Error;
use crate::screen::{Screen, Sink, blit_rect_spec};

verus! {

/// The terminal-session collaborator: entering switches to the alternate
/// screen, hides the cursor and enables raw mode, and reports the terminal's
/// size; leaving restores the terminal. `enters()` counts successful enters;
/// `leaves()` counts leave attempts, successful or not, since a failed leave
/// has still done its best-effort restoration.
pub trait TerminalPort: Sized {
    /// Impls that outside code never reasons about may keep the defaults.
    open spec fn enters(&self) -> nat {
        0
    }

    open spec fn leaves(&self) -> nat {
        0
    }

    fn enter(&mut self) -> (r: Result<(u16, u16), Error>)
        ensures
            r is Ok ==> final(self).enters() == old(self).enters() + 1,
            r is Err ==> final(self).enters() == old(self).enters(),
            final(self).leaves() == old(self).leaves(),
    ;

    fn leave(&mut self) -> (r: Result<(), Error>)
        ensures
            final(self).leaves() == old(self).leaves() + 1,
            final(self).enters() == old(self).enters(),
    ;
}

/// A stand-in terminal port: it performs nothing, reports a fixed size, and
/// counts how often it is entered and left. It backs tests of the session
/// lifecycle, including simulated failures.
pub struct ProbePort {
    size: (u16, u16),
    fail_enter: bool,
    entered: u64,
    left: u64,
    entered_count: Ghost<nat>,
    left_count: Ghost<nat>,
}

impl ProbePort {
    pub fn new(size: (u16, u16)) -> (r: ProbePort)
        ensures
            r.enters() == 0,
            r.leaves() == 0,
    {
        ProbePort {
            size,
            fail_enter: false,
            entered: 0,
            left: 0,
            entered_count: Ghost(0),
            left_count: Ghost(0),
        }
    }

    /// A probe port whose `enter` always fails, as a terminal that cannot
    /// be acquired.
    pub fn refusing(size: (u16, u16)) -> (r: ProbePort)
        ensures
            r.enters() == 0,
            r.leaves() == 0,
    {
        ProbePort {
            size,
            fail_enter: true,
            entered: 0,
            left: 0,
            entered_count: Ghost(0),
            left_count: Ghost(0),
        }
    }

    /// How often this port was entered successfully, saturating at
    /// `u64::MAX`.
    pub fn entered(&self) -> u64 {
        self.entered
    }

    /// How often this port's leave was attempted, saturating at `u64::MAX`.
    pub fn left(&self) -> u64 {
        self.left
    }
}

impl TerminalPort for ProbePort {
    closed spec fn enters(&self) -> nat {
        self.entered_count@
    }

    closed spec fn leaves(&self) -> nat {
        self.left_count@
    }

    fn enter(&mut self) -> (r: Result<(u16, u16), Error>) {
        if self.fail_enter {
            return Err(Error::IO("the probe port was told to refuse".to_owned()));
        }
        self.entered_count = Ghost(self.entered_count@ + 1);
        if self.entered < u64::MAX {
            self.entered = self.entered + 1;
        }
        Ok(self.size)
    }

    fn leave(&mut self) -> (r: Result<(), Error>) {
        self.left_count = Ghost(self.left_count@ + 1);
        if self.left < u64::MAX {
            self.left = self.left + 1;
        }
        Ok(())
    }
}

/// Runs one whole render session: enters the terminal session, builds a
/// blank screen of the reported size over `writer`, blits `glyphs` (a
/// `glyph_size` grid) at `origin`, flushes, and leaves.
///
/// The teardown pairing is part of the contract: however the operations in
/// between fare, the port's leave is attempted exactly once for the one
/// successful enter, and never without one.
pub fn present_frame<P: TerminalPort, W: Sink>(
    port: &mut P, writer: W, glyphs: &[u8], origin: (u16, u16), glyph_size: (u16, u16),
) -> (r: Result<(), Error>)
    ensures
        final(port).enters() - old(port).enters()
            == final(port).leaves() - old(port).leaves(),
        old(port).enters() <= final(port).enters() <= old(port).enters() + 1,
{
    let size = match port.enter() {
        Ok(size) => size,
        Err(e) => {
            return Err(e);
        },
    };
    let mut screen = match Screen::init_with_size_and_writer(size, writer) {
        Ok(screen) => screen,
        Err(e) => {
            let _ = port.leave();
            return Err(e);
        },
    };
    screen.draw_square_bytes(origin, glyph_size, glyphs);
    let flushed = screen.finish();
    let left = port.leave();
    match flushed {
        Ok(()) => left,
        Err(e) => Err(e),
    }
}

} // verus!
