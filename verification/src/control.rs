//! The command protocol and the simulation driver's per-cycle decisions.

use vstd::prelude::*;

use crate::gameoflife::GridView;
use crate::gameoflife::Universe;

verus! {

/// A named shape: a fixed set of `(row, col)` offsets stamped alive onto the
/// grid, anchored at the origin.
#[derive(Clone, Copy, Debug, PartialEq, Eq, Structural)]
pub enum Pattern {
    Spaceship,
}

/// A control message from the consumer to the simulation driver.
#[derive(Clone, Copy, Debug, PartialEq, Eq, Structural)]
pub enum MessageState {
    Pattern(Pattern),
    Start,
    Pause,
    Clear,
}

/// What can go wrong inside the engine: a stamp that does not fit the grid,
/// or a configuration with a zero dimension (or one too large for the index
/// arithmetic).
#[derive(Clone, Copy, Debug, PartialEq, Eq, Structural)]
pub enum LifeError {
    OutOfBoundsStamp,
    ConfigurationInvalid,
}

/// The `(row, col)` offsets of a named pattern, anchored at `(0, 0)`.
pub open spec fn pattern_offsets(p: Pattern) -> Seq<(u32, u32)> {
    match p {
        Pattern::Spaceship => seq![(1u32, 2u32), (2u32, 3u32), (3u32, 1u32), (3u32, 2u32), (3u32, 3u32)],
    }
}

impl GridView {
    /// Whether every offset of the pattern lies inside the grid.
    pub open spec fn pattern_fits(self, p: Pattern) -> bool {
        forall|k: int|
            0 <= k < pattern_offsets(p).len() ==> (pattern_offsets(p)[k].0 < self.height
                && pattern_offsets(p)[k].1 < self.width)
    }

    /// Whether a command is accepted: every command but an out-of-bounds
    /// stamp.
    pub open spec fn accepts(self, message: MessageState) -> bool {
        match message {
            MessageState::Pattern(p) => self.pattern_fits(p),
            _ => true,
        }
    }

    /// The grid after one command.  A stamp that does not fit leaves the grid
    /// unchanged; `Clear` kills every cell and leaves the running flag alone;
    /// `Start` and `Pause` only set the running flag.
    pub open spec fn apply_spec(self, message: MessageState) -> GridView {
        match message {
            MessageState::Pattern(p) => if self.pattern_fits(p) {
                self.stamped(pattern_offsets(p))
            } else {
                self
            },
            MessageState::Start => GridView { started: true, ..self },
            MessageState::Pause => GridView { started: false, ..self },
            MessageState::Clear => self.cleared(),
        }
    }

    /// The grid after the command-polling step of one driver cycle: the
    /// pending command applied, if there is one.
    pub open spec fn after_command(self, message: Option<MessageState>) -> GridView {
        match message {
            Some(m) => self.apply_spec(m),
            None => self,
        }
    }

    /// The grid after the generation step of one driver cycle: one step while
    /// running, unchanged while paused.
    pub open spec fn generation(self) -> GridView {
        if self.started {
            self.step()
        } else {
            self
        }
    }

    /// The grid after one full driver cycle: at most one pending command is
    /// drained, then a generation is computed if the grid is then running.
    pub open spec fn cycle_spec(self, message: Option<MessageState>) -> GridView {
        self.after_command(message).generation()
    }
}

/// The `(row, col)` offsets of a named pattern, as a runtime value.
pub fn pattern_cells(p: &Pattern) -> (v: Vec<(u32, u32)>)
    ensures
        v@ == pattern_offsets(*p),
{
    match p {
        Pattern::Spaceship => {
            let mut v: Vec<(u32, u32)> = Vec::new();
            v.push((1, 2));
            v.push((2, 3));
            v.push((3, 1));
            v.push((3, 2));
            v.push((3, 3));
            proof {
                assert(v@ =~= pattern_offsets(Pattern::Spaceship));
            }
            v
        },
    }
}

impl Universe {
    /// Whether every offset of the pattern lies inside this grid.
    pub fn pattern_fits(&self, p: &Pattern) -> (b: bool)
        ensures
            b == self@.pattern_fits(*p),
    {
        let offsets = pattern_cells(p);
        let n = offsets.len();
        let mut k: usize = 0;
        while k < n
            invariant
                n == offsets@.len(),
                offsets@ == pattern_offsets(*p),
                k <= n,
                forall|j: int|
                    0 <= j < k ==> ((#[trigger] offsets@[j]).0 < self@.height && offsets@[j].1
                        < self@.width),
            decreases n - k,
        {
            let (row, col) = offsets[k];
            if row >= self.height || col >= self.width {
                return false;
            }
            k += 1;
        }
        true
    }

    /// Apply one control command.  A stamp whose pattern does not fit the
    /// grid is rejected as a no-op and reported; every other command always
    /// succeeds.
    pub fn apply_message(&mut self, message: MessageState) -> (r: Result<(), LifeError>)
        requires
            old(self)@.wf(),
        ensures
            final(self)@ == old(self)@.apply_spec(message),
            final(self)@.wf(),
            r == (if old(self)@.accepts(message) {
                Result::<(), LifeError>::Ok(())
            } else {
                Result::<(), LifeError>::Err(LifeError::OutOfBoundsStamp)
            }),
    {
        match message {
            MessageState::Pattern(p) => {
                if self.pattern_fits(&p) {
                    let offsets = pattern_cells(&p);
                    self.set_cells(offsets.as_slice());
                    Ok(())
                } else {
                    Err(LifeError::OutOfBoundsStamp)
                }
            },
            MessageState::Start => {
                self.started = true;
                Ok(())
            },
            MessageState::Pause => {
                self.started = false;
                Ok(())
            },
            MessageState::Clear => {
                self.clear();
                Ok(())
            },
        }
    }
}

/// What one driver cycle hands back to the loop around it: the snapshot of
/// the state the cycle began with, the snapshot after the generation the
/// cycle computed (absent while paused), and the report of a rejected
/// command.
pub struct CycleOutput {
    pub snapshot: String,
    pub stepped: Option<String>,
    pub rejected: Option<LifeError>,
}

impl Universe {
    /// One driver cycle: publish the current state, drain at most one pending
    /// command, and, if the grid is then running, advance one generation and
    /// publish again.
    pub fn update(&mut self, message: Option<MessageState>) -> (out: CycleOutput)
        requires
            old(self)@.wf(),
        ensures
            final(self)@ == old(self)@.cycle_spec(message),
            final(self)@.wf(),
            out.snapshot@ == old(self)@.snapshot(),
            (match out.stepped {
                Some(s) => old(self)@.after_command(message).started && s@
                    == final(self)@.snapshot(),
                None => !old(self)@.after_command(message).started,
            }),
            out.rejected == (match message {
                Some(m) => if old(self)@.accepts(m) {
                    Option::<LifeError>::None
                } else {
                    Option::<LifeError>::Some(LifeError::OutOfBoundsStamp)
                },
                None => Option::<LifeError>::None,
            }),
    {
        let snapshot = self.render();
        let rejected = match message {
            Some(m) => match self.apply_message(m) {
                Ok(()) => None,
                Err(e) => Some(e),
            },
            None => None,
        };
        let stepped = if self.started {
            self.tick();
            Some(self.render())
        } else {
            None
        };
        CycleOutput { snapshot, stepped, rejected }
    }
}

} // verus!
