//! The scripted-entity engine shared by bullets and enemies: an age in
//! ticks, an ordered list of events keyed by the tick they fire on, and a
//! cursor that only moves forward.
use vstd::prelude::*;

verus! {

/// An event that fires on the tick when the owner's age equals `at`.
#[derive(Clone, Copy, PartialEq, Eq, Debug)]
pub struct ScriptedEvent<E> {
    pub at: u64,
    pub event_ty: E,
}

/// Age, event list and cursor of one scripted entity.
#[derive(Clone, Debug)]
pub struct Script<E> {
    pub frame: u64,
    pub events: Vec<ScriptedEvent<E>>,
    pub next_event: Option<usize>,
}

/// Why an event list was refused.
#[derive(Clone, Copy, PartialEq, Eq, Structural, Debug)]
pub enum ScheduleError {
    /// The event at this index does not come strictly after the one before
    /// it, or (for the first) is set for tick zero, which no entity reaches.
    InvalidEventSchedule(usize),
}

/// The ticks of `events`, in order.
pub open spec fn ticks_of<E>(events: Seq<ScriptedEvent<E>>) -> Seq<int> {
    events.map_values(|e: ScriptedEvent<E>| e.at as int)
}

/// Every tick is at least one and each comes strictly after the one before.
pub open spec fn valid_schedule(ats: Seq<int>) -> bool {
    &&& forall|i: int| 0 <= i < ats.len() ==> ats[i] >= 1
    &&& forall|i: int, j: int| 0 <= i < j < ats.len() ==> ats[i] < ats[j]
}

/// On the tick that takes the age from `frame` to `frame + 1`, the event
/// under `cursor` fires.
pub open spec fn fires_at(ats: Seq<int>, frame: int, cursor: int) -> bool {
    0 <= cursor < ats.len() && ats[cursor] == frame + 1
}

/// The cursor after that tick.
pub open spec fn next_cursor(ats: Seq<int>, frame: int, cursor: int) -> int {
    if fires_at(ats, frame, cursor) {
        cursor + 1
    } else {
        cursor
    }
}

/// The cursor after `n` ticks of a fresh script (age zero, cursor zero).
pub open spec fn run_cursor(ats: Seq<int>, n: nat) -> int
    decreases n,
{
    if n == 0 {
        0
    } else {
        next_cursor(ats, n - 1, run_cursor(ats, (n - 1) as nat))
    }
}

/// Event `j` of a fresh script fires on its `t`-th tick.
pub open spec fn fired_on(ats: Seq<int>, t: int, j: int) -> bool {
    t >= 1 && run_cursor(ats, (t - 1) as nat) == j && fires_at(ats, t - 1, j)
}

/// After `n` ticks of a fresh script with a valid schedule, the cursor
/// stands on the first event whose trigger lies beyond `n`.
pub proof fn lemma_run_cursor(ats: Seq<int>, n: nat)
    requires
        valid_schedule(ats),
    ensures
        0 <= run_cursor(ats, n) <= ats.len(),
        forall|k: int| 0 <= k < run_cursor(ats, n) ==> ats[k] <= n,
        forall|k: int| run_cursor(ats, n) <= k < ats.len() ==> ats[k] > n,
    decreases n,
{
    if n > 0 {
        lemma_run_cursor(ats, (n - 1) as nat);
        let c = run_cursor(ats, (n - 1) as nat);
        if c < ats.len() && ats[c] != n {
            assert forall|k: int| c <= k < ats.len() implies ats[k] > n by {
                if k > c {
                    assert(ats[c] < ats[k]);
                }
            }
        }
    }
}

/// Of a fresh script whose schedule is valid, each event fires exactly
/// once: on the tick where the age equals its trigger, never before or
/// after.
pub proof fn lemma_event_fires_once(ats: Seq<int>, j: int, t: int)
    requires
        valid_schedule(ats),
        0 <= j < ats.len(),
        t >= 1,
    ensures
        fired_on(ats, t, j) <==> t == ats[j],
{
    lemma_run_cursor(ats, (t - 1) as nat);
    let c = run_cursor(ats, (t - 1) as nat);
    if t == ats[j] {
        if j > c {
            assert(ats[c] < ats[j]);
        }
    }
}

impl<E> Script<E> {
    /// The cursor as an index; an exhausted cursor stands past the last event.
    pub open spec fn cursor(&self) -> int {
        match self.next_event {
            Some(i) => i as int,
            None => self.events@.len() as int,
        }
    }

    pub open spec fn ats(&self) -> Seq<int> {
        ticks_of(self.events@)
    }

    /// The cursor points at an event, or is exhausted.
    pub open spec fn wf(&self) -> bool {
        match self.next_event {
            Some(i) => i < self.events@.len(),
            None => true,
        }
    }

    /// The event that fires on the next tick, if any.
    pub open spec fn firing(&self) -> Option<ScriptedEvent<E>> {
        if fires_at(self.ats(), self.frame as int, self.cursor()) {
            Some(self.events@[self.cursor()])
        } else {
            None
        }
    }

    /// A fresh script: age zero, cursor on the first event if there is one.
    pub fn new(events: Vec<ScriptedEvent<E>>) -> (r: Script<E>)
        ensures
            r.wf(),
            r.frame == 0,
            r.events@ == events@,
            r.cursor() == 0,
            r.next_event == (if events@.len() == 0 {
                None
            } else {
                Some(0usize)
            }),
    {
        let next_event = if events.len() == 0 {
            None
        } else {
            Some(0)
        };
        Script { frame: 0, next_event, events }
    }

    /// Ages the script by one tick; returns the index of the event that
    /// fires on this tick, whose trigger equals the new age, and moves the
    /// cursor past it.
    pub fn tick(&mut self) -> (fired: Option<usize>)
        requires
            old(self).wf(),
            old(self).frame < u64::MAX,
        ensures
            final(self).wf(),
            final(self).frame == old(self).frame + 1,
            final(self).events@ == old(self).events@,
            final(self).cursor() == next_cursor(
                old(self).ats(),
                old(self).frame as int,
                old(self).cursor(),
            ),
            final(self).cursor() >= old(self).cursor(),
            fired == (if fires_at(old(self).ats(), old(self).frame as int, old(self).cursor()) {
                Some(old(self).cursor() as usize)
            } else {
                None::<usize>
            }),
    {
        self.frame = self.frame + 1;
        match self.next_event {
            None => None,
            Some(i) => {
                if self.events[i].at != self.frame {
                    None
                } else {
                    let n = self.events.len();
                    self.next_event = if i + 1 == n {
                        None
                    } else {
                        Some(i + 1)
                    };
                    Some(i)
                }
            },
        }
    }
}

/// Checks that `events` is in strictly increasing tick order, starting at
/// tick one or later.
pub fn check_schedule<E>(events: &Vec<ScriptedEvent<E>>) -> (r: Result<(), ScheduleError>)
    ensures
        r is Ok <==> valid_schedule(ticks_of(events@)),
        match r {
            Ok(_) => true,
            Err(ScheduleError::InvalidEventSchedule(i)) => {
                &&& i < events@.len()
                &&& forall|k: int| 0 <= k < i ==> events@[k].at >= 1
                &&& forall|k: int, l: int| 0 <= k < l < i ==> events@[k].at < events@[l].at
                &&& if i == 0 {
                    events@[0].at == 0
                } else {
                    events@[i as int].at <= events@[i - 1].at
                }
            },
        },
{
    let mut i: usize = 0;
    while i < events.len()
        invariant
            0 <= i <= events@.len(),
            forall|k: int| 0 <= k < i ==> events@[k].at >= 1,
            forall|k: int, l: int| 0 <= k < l < i ==> events@[k].at < events@[l].at,
        decreases events@.len() - i,
    {
        if i == 0 {
            if events[0].at == 0 {
                assert(ticks_of(events@)[0] == 0);
                return Err(ScheduleError::InvalidEventSchedule(0));
            }
        } else if events[i].at <= events[i - 1].at {
            assert(ticks_of(events@)[i as int] <= ticks_of(events@)[i - 1]);
            return Err(ScheduleError::InvalidEventSchedule(i));
        }
        i = i + 1;
    }
    Ok(())
}

} // verus!
