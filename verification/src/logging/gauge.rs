//! Periodic gauge reporting: which gauges are being read, and the life of one read.
//!
//! A gauge is read on a blocking task. At most a few reads hold a permit at a time; a
//! read that runs too long gives its permit back so that others may start, and a gauge
//! whose last read has not finished is skipped rather than read twice at once.
use crate::logging::metric::MetricId;
use crate::text::{str_eq, string_of};
use vstd::prelude::*;

verus! {

/// The reads that may hold a permit at once.
pub const TARGET_CONCURRENT_TASKS: usize = 2;

/// How long, in milliseconds, a read may hold its permit.
pub const TOO_LONG_THRESHOLD_MILLIS: u64 = 500;

/// A metric id as plain values: its name and its tags.
pub type IdView = (Seq<char>, Seq<(Seq<char>, Seq<char>)>);

/// The plain value of a metric id.
pub open spec fn id_view(id: MetricId) -> IdView {
    (id.name@, id.tags@.map_values(|t: (String, String)| (t.0@, t.1@)))
}

/// Whether two metric ids are the same id.
pub fn same_id(a: &MetricId, b: &MetricId) -> (r: bool)
    ensures
        r == (id_view(*a) == id_view(*b)),
{
    if !str_eq(a.name.as_str(), b.name.as_str()) || a.tags.len() != b.tags.len() {
        proof {
            if a.tags.len() != b.tags.len() {
                assert(id_view(*a).1.len() != id_view(*b).1.len());
            }
        }
        return false;
    }
    let mut i: usize = 0;
    while i < a.tags.len()
        invariant
            a.tags.len() == b.tags.len(),
            i <= a.tags.len(),
            forall|j: int|
                0 <= j < i ==> (a.tags@[j].0@ == b.tags@[j].0@ && a.tags@[j].1@ == b.tags@[j].1@),
        decreases a.tags.len() - i,
    {
        if !str_eq(a.tags[i].0.as_str(), b.tags[i].0.as_str()) || !str_eq(
            a.tags[i].1.as_str(),
            b.tags[i].1.as_str(),
        ) {
            assert(id_view(*a).1[i as int] != id_view(*b).1[i as int]);
            return false;
        }
        i = i + 1;
    }
    assert(id_view(*a).1 =~= id_view(*b).1);
    true
}

/// A copy of a metric id.
pub fn copy_id(id: &MetricId) -> (r: MetricId)
    ensures
        id_view(r) == id_view(*id),
{
    let mut tags: Vec<(String, String)> = Vec::new();
    let mut i: usize = 0;
    while i < id.tags.len()
        invariant
            i <= id.tags.len(),
            tags@.len() == i,
            forall|j: int|
                0 <= j < i ==> (tags@[j].0@ == id.tags@[j].0@ && tags@[j].1@ == id.tags@[j].1@),
        decreases id.tags.len() - i,
    {
        tags.push((string_of(id.tags[i].0.as_str()), string_of(id.tags[i].1.as_str())));
        i = i + 1;
    }
    let r = MetricId { name: string_of(id.name.as_str()), tags };
    assert(id_view(r).1 =~= id_view(*id).1);
    r
}

/// The gauges whose reads have not finished.
pub struct GaugeReporter {
    ids: Vec<MetricId>,
}

impl GaugeReporter {
    /// The ids being read, in the order their reads began.
    pub closed spec fn view(&self) -> Seq<IdView> {
        self.ids@.map_values(|id: MetricId| id_view(id))
    }

    /// No gauge is read twice at once.
    pub open spec fn wf(&self) -> bool {
        forall|i: int, j: int|
            0 <= i < j < self.view().len() ==> self.view()[i] != self.view()[j]
    }

    /// A reporter with no reads under way.
    pub fn new() -> (r: GaugeReporter)
        ensures
            r.wf(),
            r.view().len() == 0,
    {
        let r = GaugeReporter { ids: Vec::new() };
        assert(r.view() =~= Seq::<IdView>::empty());
        r
    }

    /// Whether a read of this gauge is under way.
    pub fn contains(&self, id: &MetricId) -> (r: bool)
        ensures
            r == self.view().contains(id_view(*id)),
    {
        let mut i: usize = 0;
        while i < self.ids.len()
            invariant
                i <= self.ids@.len(),
                forall|j: int| 0 <= j < i ==> self.view()[j] != id_view(*id),
            decreases self.ids@.len() - i,
        {
            if same_id(&self.ids[i], id) {
                assert(self.view()[i as int] == id_view(*id));
                return true;
            }
            i = i + 1;
        }
        false
    }

    /// Starts a read of the gauge, unless one is still under way: then the gauge is
    /// skipped this cycle and `false` comes back.
    pub fn insert(&mut self, id: &MetricId) -> (r: bool)
        requires
            old(self).wf(),
        ensures
            final(self).wf(),
            r == !old(self).view().contains(id_view(*id)),
            r ==> final(self).view() == old(self).view().push(id_view(*id)),
            !r ==> final(self).view() == old(self).view(),
    {
        if self.contains(id) {
            return false;
        }
        let ghost before = self.view();
        self.ids.push(copy_id(id));
        assert(self.view() =~= before.push(id_view(*id)));
        true
    }

    /// The read of this gauge has finished; it may be read again.
    pub fn finish(&mut self, id: &MetricId)
        requires
            old(self).wf(),
        ensures
            final(self).wf(),
            !final(self).view().contains(id_view(*id)),
            forall|x: IdView| x != id_view(*id) ==> (final(self).view().contains(x) <==> old(
                self,
            ).view().contains(x)),
    {
        let mut i: usize = 0;
        while i < self.ids.len()
            invariant
                i <= self.ids@.len(),
                self.ids@ == old(self).ids@,
                self.wf(),
                forall|j: int| 0 <= j < i ==> self.view()[j] != id_view(*id),
            decreases self.ids@.len() - i,
        {
            if same_id(&self.ids[i], id) {
                let ghost before = self.view();
                self.ids.remove(i);
                assert(self.view() =~= before.remove(i as int));
                assert(before[i as int] == id_view(*id));
                assert forall|a: int, b: int| 0 <= a < b < self.view().len() implies self.view()[a]
                    != self.view()[b] by {
                    let a2 = if a < i { a } else { a + 1 };
                    let b2 = if b < i { b } else { b + 1 };
                    assert(self.view()[a] == before[a2]);
                    assert(self.view()[b] == before[b2]);
                }
                assert forall|x: IdView| x != id_view(*id) implies (self.view().contains(x)
                    <==> before.contains(x)) by {
                    if before.contains(x) {
                        let k = choose|k: int| 0 <= k < before.len() && before[k] == x;
                        if k < i {
                            assert(self.view()[k] == x);
                        } else {
                            assert(self.view()[k - 1] == x);
                        }
                    }
                }
                assert(!self.view().contains(id_view(*id))) by {
                    if self.view().contains(id_view(*id)) {
                        let k = choose|k: int|
                            0 <= k < self.view().len() && self.view()[k] == id_view(*id);
                        if k < i {
                            assert(before[k] == id_view(*id));
                        } else {
                            assert(before[k + 1] == id_view(*id));
                        }
                    }
                }
                return;
            }
            i = i + 1;
        }
    }

    /// Whether no read is under way.
    pub fn is_empty(&self) -> (r: bool)
        ensures
            r == (self.view().len() == 0),
    {
        self.ids.len() == 0
    }
}

/// Where one gauge read stands.
#[derive(Debug, Clone, Copy, PartialEq, Eq, Structural)]
pub enum GaugeState {
    /// Waiting for a permit.
    Acquiring,
    /// The read runs on its own task; it may still hold its permit.
    Running { holds_permit: bool },
    /// The read has finished and been handed on.
    Done,
}

/// What the caller saw when it polled the read.
#[derive(Debug, Clone, Copy, PartialEq, Eq, Structural)]
pub enum GaugeEvent {
    /// The permit was granted.
    PermitAcquired,
    /// The read was polled while running: whether its time is up, and whether it finished.
    Polled { timed_out: bool, finished: bool },
}

/// What the caller is to do after an event.
#[derive(Debug, Clone, Copy, PartialEq, Eq, Structural)]
pub struct GaugeAction {
    /// Start the read on a blocking task, and start its timer.
    pub spawn: bool,
    /// Give the permit back.
    pub release_permit: bool,
    /// Hand the finished read on.
    pub complete: bool,
}

impl GaugeState {
    /// Whether the read expects this event.
    pub open spec fn accepts(self, e: GaugeEvent) -> bool {
        match self {
            GaugeState::Acquiring => e is PermitAcquired,
            GaugeState::Running { .. } => e is Polled,
            GaugeState::Done => false,
        }
    }

    /// The next state and action after `e`.
    pub open spec fn spec_step(self, e: GaugeEvent) -> (GaugeState, GaugeAction) {
        match (self, e) {
            (GaugeState::Running { holds_permit }, GaugeEvent::Polled { timed_out, finished }) => {
                let release = holds_permit && (timed_out || finished);
                if finished {
                    (
                        GaugeState::Done,
                        GaugeAction { spawn: false, release_permit: release, complete: true },
                    )
                } else {
                    (
                        GaugeState::Running { holds_permit: holds_permit && !timed_out },
                        GaugeAction { spawn: false, release_permit: release, complete: false },
                    )
                }
            },
            _ => (
                GaugeState::Running { holds_permit: true },
                GaugeAction { spawn: true, release_permit: false, complete: false },
            ),
        }
    }

    /// Takes one event. A read that has its permit starts; a running read that has held
    /// its permit past the threshold gives it back; a finished read is handed on, and the
    /// permit goes back with it if it still held it.
    pub fn step(self, e: GaugeEvent) -> (r: (GaugeState, GaugeAction))
        requires
            self.accepts(e),
        ensures
            r == self.spec_step(e),
    {
        match (self, e) {
            (GaugeState::Running { holds_permit }, GaugeEvent::Polled { timed_out, finished }) => {
                let release = holds_permit && (timed_out || finished);
                if finished {
                    (
                        GaugeState::Done,
                        GaugeAction { spawn: false, release_permit: release, complete: true },
                    )
                } else {
                    (
                        GaugeState::Running { holds_permit: holds_permit && !timed_out },
                        GaugeAction { spawn: false, release_permit: release, complete: false },
                    )
                }
            },
            _ => (
                GaugeState::Running { holds_permit: true },
                GaugeAction { spawn: true, release_permit: false, complete: false },
            ),
        }
    }
}

/// Whether the events can be fed in order from `s`, each one accepted.
pub open spec fn feeds(s: GaugeState, es: Seq<GaugeEvent>) -> bool
    decreases es.len(),
{
    es.len() == 0 || (s.accepts(es[0]) && feeds(s.spec_step(es[0]).0, es.drop_first()))
}

/// The state after the events.
pub open spec fn state_after(s: GaugeState, es: Seq<GaugeEvent>) -> GaugeState
    decreases es.len(),
{
    if es.len() == 0 {
        s
    } else {
        state_after(s.spec_step(es[0]).0, es.drop_first())
    }
}

/// How many times the permit is given back along the events.
pub open spec fn releases(s: GaugeState, es: Seq<GaugeEvent>) -> nat
    decreases es.len(),
{
    if es.len() == 0 {
        0
    } else {
        let (s2, a) = s.spec_step(es[0]);
        (if a.release_permit { 1nat } else { 0nat }) + releases(s2, es.drop_first())
    }
}

/// Whether the state holds the permit.
pub open spec fn holds(s: GaugeState) -> bool {
    s matches GaugeState::Running { holds_permit } && holds_permit
}

/// Every permit is given back once: along any events a read accepts, what it held at
/// the start and what it acquired is what it gave back and what it still holds.
pub proof fn lemma_permit_given_back_once(s: GaugeState, es: Seq<GaugeEvent>)
    requires
        feeds(s, es),
        s !is Acquiring || (es.len() > 0),
    ensures
        releases(s, es) + (if holds(state_after(s, es)) { 1int } else { 0int }) == (if holds(s)
            || s is Acquiring { 1int } else { 0int }),
    decreases es.len(),
{
    if es.len() > 0 {
        let s2 = s.spec_step(es[0]).0;
        let rest = es.drop_first();
        assert(releases(s, es) == (if s.spec_step(es[0]).1.release_permit { 1nat } else { 0nat })
            + releases(s2, rest));
        assert(state_after(s, es) == state_after(s2, rest));
        if es.len() > 1 {
            lemma_permit_given_back_once(s2, rest);
        } else {
            assert(releases(s2, rest) == 0);
            assert(state_after(s2, rest) == s2);
        }
    }
}

/// A finished read holds no permit: once the read is handed on, every permit it had has
/// been given back.
pub proof fn lemma_done_released(es: Seq<GaugeEvent>)
    requires
        feeds(GaugeState::Acquiring, es),
        state_after(GaugeState::Acquiring, es) is Done,
    ensures
        releases(GaugeState::Acquiring, es) == 1,
{
    lemma_permit_given_back_once(GaugeState::Acquiring, es);
}

} // verus!
