use vstd::prelude::*;

use crate::model::{is_outside_peak, HistoryModel};

verus! {

/// The state after each `(sample, time)` pair of `events` arrives, in order.
pub open spec fn push_all(m: HistoryModel, events: Seq<(u32, u64)>) -> HistoryModel
    decreases events.len(),
{
    if events.len() == 0 {
        m
    } else {
        push_all(m, events.drop_last()).step(events.last().0, events.last().1)
    }
}

/// The samples of `events`, in order.
pub open spec fn samples_of(events: Seq<(u32, u64)>) -> Seq<u32> {
    Seq::new(events.len(), |i: int| events[i].0)
}

/// Every state a tracker can reach is well formed.
pub proof fn lemma_step_wf(m: HistoryModel, n: u32, now: u64)
    requires
        m.wf(),
    ensures
        m.step(n, now).wf(),
{
}

/// Every state reached by a run of pushes is well formed.
pub proof fn lemma_push_all_wf(m: HistoryModel, events: Seq<(u32, u64)>)
    requires
        m.wf(),
    ensures
        push_all(m, events).wf(),
        push_all(m, events).capacity() == m.capacity(),
    decreases events.len(),
{
    if events.len() > 0 {
        lemma_push_all_wf(m, events.drop_last());
    }
}

/// One push drops the oldest sample of the ring and appends the new one.
pub proof fn lemma_step_ring(m: HistoryModel, n: u32, now: u64)
    requires
        m.wf(),
    ensures
        m.step(n, now).ring() == m.ring().subrange(1, m.capacity() as int).push(n),
{
    let s = m.step(n, now);
    assert(s.ring() =~= m.ring().subrange(1, m.capacity() as int).push(n));
}

/// After any run of pushes the ring holds the last `capacity` values of the
/// old ring followed by the pushed samples.
pub proof fn lemma_push_all_ring(m: HistoryModel, events: Seq<(u32, u64)>)
    requires
        m.wf(),
    ensures
        push_all(m, events).ring() == (m.ring() + samples_of(events)).subrange(
            events.len() as int,
            (events.len() + m.capacity()) as int,
        ),
    decreases events.len(),
{
    let k = events.len() as int;
    let cap = m.capacity() as int;
    if k == 0 {
        assert((m.ring() + samples_of(events)).subrange(0, cap) =~= m.ring());
    } else {
        let prev = events.drop_last();
        lemma_push_all_ring(m, prev);
        lemma_push_all_wf(m, prev);
        let p = push_all(m, prev);
        lemma_step_ring(p, events.last().0, events.last().1);
        assert(samples_of(events) =~= samples_of(prev).push(events.last().0));
        assert(push_all(m, events).ring() =~= (m.ring() + samples_of(events)).subrange(k, k + cap));
    }
}

/// After at least `capacity` pushes the ring holds exactly the last
/// `capacity` pushed samples, from the oldest to the newest.
pub proof fn lemma_ring_holds_last_pushed(m: HistoryModel, events: Seq<(u32, u64)>)
    requires
        m.wf(),
        events.len() >= m.capacity(),
    ensures
        push_all(m, events).ring() == samples_of(events).subrange(
            events.len() - m.capacity(),
            events.len() as int,
        ),
{
    lemma_push_all_ring(m, events);
    let k = events.len() as int;
    let cap = m.capacity() as int;
    assert((m.ring() + samples_of(events)).subrange(k, k + cap) =~= samples_of(events).subrange(
        k - cap,
        k,
    ));
}

/// The maximum never falls and the minimum never rises: over a run of
/// pushes, a later state's extrema enclose an earlier state's.
pub proof fn lemma_watermarks_monotone(
    m: HistoryModel,
    events: Seq<(u32, u64)>,
    i: int,
    j: int,
)
    requires
        0 <= i <= j <= events.len(),
    ensures
        push_all(m, events.subrange(0, i)).max <= push_all(m, events.subrange(0, j)).max,
        push_all(m, events.subrange(0, i)).min >= push_all(m, events.subrange(0, j)).min,
    decreases j - i,
{
    if i < j {
        lemma_watermarks_monotone(m, events, i, j - 1);
        assert(events.subrange(0, j).drop_last() =~= events.subrange(0, j - 1));
    }
}

/// A run of pushes of `v` alone, from a state with no cycle under way in
/// which `v` would start none, leaves the measurements as they were and
/// still has no cycle under way, or one that `v` cannot end.
proof fn lemma_constant_run(m: HistoryModel, v: u32, events: Seq<(u32, u64)>)
    requires
        m.wf(),
        forall|i: int| 0 <= i < events.len() ==> #[trigger] events[i].0 == v,
        m.peaked_at is Some ==> is_outside_peak(
            if v > m.max { v } else { m.max },
            if v < m.min { v } else { m.min },
            v,
        ),
    ensures
        push_all(m, events).wavelength == m.wavelength,
        push_all(m, events).frequency == m.frequency,
        push_all(m, events).peaked_at is Some ==> is_outside_peak(
            if v > push_all(m, events).max { v } else { push_all(m, events).max },
            if v < push_all(m, events).min { v } else { push_all(m, events).min },
            v,
        ),
    decreases events.len(),
{
    if events.len() > 0 {
        let prev = events.drop_last();
        assert forall|i: int| 0 <= i < prev.len() implies #[trigger] prev[i].0 == v by {
            assert(prev[i] == events[i]);
        }
        lemma_constant_run(m, v, prev);
        assert(events.last().0 == v);
    }
}

/// Pushing one value over and over into a fresh tracker never measures a
/// cycle: the wavelength stays unset and the frequency 0.
pub proof fn lemma_constant_input_no_cycle(
    default_value: u32,
    capacity: nat,
    v: u32,
    events: Seq<(u32, u64)>,
)
    requires
        0 < capacity <= crate::model::MAX_CAPACITY,
        forall|i: int| 0 <= i < events.len() ==> #[trigger] events[i].0 == v,
    ensures
        push_all(HistoryModel::fresh(default_value, capacity), events).wavelength is None,
        push_all(HistoryModel::fresh(default_value, capacity), events).frequency == 0,
{
    lemma_constant_run(HistoryModel::fresh(default_value, capacity), v, events);
}

} // verus!
