//! Aggregation of raw per-frame directional input into one pending
//! command per network tick.
//!
//! Input is sampled every render frame, but a command is sent at most
//! once per network tick. Each directional intent is latched to true
//! within a tick, so a key press between two ticks is never lost.

use vstd::prelude::*;

verus! {

/// A batch of four independent directional intents, latched within one
/// tick: merging two partial updates is a logical OR per field.
#[derive(Clone, Copy, PartialEq, Eq, Structural, Debug)]
pub struct Command {
    pub w: bool,
    pub s: bool,
    pub a: bool,
    pub d: bool,
}

/// One frame's worth of raw directional key states.
#[derive(Clone, Copy, PartialEq, Eq, Structural, Debug)]
pub struct RawInput {
    pub w: bool,
    pub s: bool,
    pub a: bool,
    pub d: bool,
}

/// What one `merge` call leaves pending: a fresh command when nothing
/// was pending, otherwise the pending command with each field ORed
/// with the new sample.
pub open spec fn merge_step(pending: Option<Command>, raw: RawInput) -> Command {
    match pending {
        None => Command { w: raw.w, s: raw.s, a: raw.a, d: raw.d },
        Some(c) => Command {
            w: c.w || raw.w,
            s: c.s || raw.s,
            a: c.a || raw.a,
            d: c.d || raw.d,
        },
    }
}

/// The pending command left by a whole sequence of `merge` calls,
/// starting from nothing pending.
pub open spec fn merge_all(raws: Seq<RawInput>) -> Option<Command>
    decreases raws.len(),
{
    if raws.len() == 0 {
        None
    } else {
        Some(merge_step(merge_all(raws.drop_last()), raws.last()))
    }
}

/// Coalesces raw per-frame input into at most one pending command.
pub struct InputAggregator {
    pending: Option<Command>,
}

impl InputAggregator {
    /// The command currently pending, if any.
    pub closed spec fn pending(self) -> Option<Command> {
        self.pending
    }

    /// A fresh aggregator with nothing pending.
    pub fn new() -> (r: Self)
        ensures
            r.pending() is None,
    {
        InputAggregator { pending: None }
    }

    /// Folds one frame of raw key states into the pending command.
    /// Creates the command if none is pending; otherwise latches each
    /// field with a logical OR, never clearing one back to false.
    pub fn merge(&mut self, w: bool, s: bool, a: bool, d: bool)
        ensures
            final(self).pending() == Some(
                merge_step(old(self).pending(), RawInput { w, s, a, d })
            ),
    {
        match &mut self.pending {
            Some(c) => {
                if w {
                    c.w = true;
                }
                if s {
                    c.s = true;
                }
                if a {
                    c.a = true;
                }
                if d {
                    c.d = true;
                }
            }
            None => {
                self.pending = Some(Command { w, s, a, d });
            }
        }
    }

    /// Returns and clears the pending command; nothing if none is
    /// pending.
    pub fn take(&mut self) -> (r: Option<Command>)
        ensures
            r == old(self).pending(),
            final(self).pending() is None,
    {
        self.pending.take()
    }
}

/// Each field of the command left by any nonempty sequence of `merge`
/// calls within one tick equals the logical OR of all the merged
/// values for that field.
pub proof fn lemma_merge_is_field_or(raws: Seq<RawInput>)
    requires
        raws.len() > 0,
    ensures
        merge_all(raws) == Some(Command {
            w: exists|i: int| 0 <= i < raws.len() && raws[i].w,
            s: exists|i: int| 0 <= i < raws.len() && raws[i].s,
            a: exists|i: int| 0 <= i < raws.len() && raws[i].a,
            d: exists|i: int| 0 <= i < raws.len() && raws[i].d,
        }),
    decreases raws.len(),
{
    if raws.len() == 1 {
        assert(raws.drop_last().len() == 0);
        assert(merge_all(raws) == Some(merge_step(None, raws.last())));
        assert((exists|i: int| 0 <= i < raws.len() && raws[i].w) == raws[0].w);
        assert((exists|i: int| 0 <= i < raws.len() && raws[i].s) == raws[0].s);
        assert((exists|i: int| 0 <= i < raws.len() && raws[i].a) == raws[0].a);
        assert((exists|i: int| 0 <= i < raws.len() && raws[i].d) == raws[0].d);
    } else {
        let front = raws.drop_last();
        lemma_merge_is_field_or(front);
        let n = raws.len() - 1;
        assert forall|i: int| 0 <= i < n implies raws[i] == front[i] by {}
        assert((exists|i: int| 0 <= i < raws.len() && raws[i].w)
            == ((exists|i: int| 0 <= i < n && front[i].w) || raws[n].w)) by {
            if exists|i: int| 0 <= i < raws.len() && raws[i].w {
                let j = choose|i: int| 0 <= i < raws.len() && raws[i].w;
                if j < n {
                    assert(front[j].w);
                }
            }
            if exists|i: int| 0 <= i < n && front[i].w {
                let j = choose|i: int| 0 <= i < n && front[i].w;
                assert(raws[j].w);
            }
        }
        assert((exists|i: int| 0 <= i < raws.len() && raws[i].s)
            == ((exists|i: int| 0 <= i < n && front[i].s) || raws[n].s)) by {
            if exists|i: int| 0 <= i < raws.len() && raws[i].s {
                let j = choose|i: int| 0 <= i < raws.len() && raws[i].s;
                if j < n {
                    assert(front[j].s);
                }
            }
            if exists|i: int| 0 <= i < n && front[i].s {
                let j = choose|i: int| 0 <= i < n && front[i].s;
                assert(raws[j].s);
            }
        }
        assert((exists|i: int| 0 <= i < raws.len() && raws[i].a)
            == ((exists|i: int| 0 <= i < n && front[i].a) || raws[n].a)) by {
            if exists|i: int| 0 <= i < raws.len() && raws[i].a {
                let j = choose|i: int| 0 <= i < raws.len() && raws[i].a;
                if j < n {
                    assert(front[j].a);
                }
            }
            if exists|i: int| 0 <= i < n && front[i].a {
                let j = choose|i: int| 0 <= i < n && front[i].a;
                assert(raws[j].a);
            }
        }
        assert((exists|i: int| 0 <= i < raws.len() && raws[i].d)
            == ((exists|i: int| 0 <= i < n && front[i].d) || raws[n].d)) by {
            if exists|i: int| 0 <= i < raws.len() && raws[i].d {
                let j = choose|i: int| 0 <= i < raws.len() && raws[i].d;
                if j < n {
                    assert(front[j].d);
                }
            }
            if exists|i: int| 0 <= i < n && front[i].d {
                let j = choose|i: int| 0 <= i < n && front[i].d;
                assert(raws[j].d);
            }
        }
    }
}

} // verus!
