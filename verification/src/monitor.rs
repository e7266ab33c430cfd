//! The monitor loop's decisions.
//!
//! The shell owns the bus subscription, the readiness polling and the
//! shutdown flag; everything it decides between a wake and the next block is
//! here: which phase the loop is in, what one drained event does to the
//! identity cache, and which dispatches a wake's worth of events owes, in
//! delivery order.

use crate::cache::NameCache;
use crate::event::{classify, spec_classify, spec_device_name};
use crate::event::{Action, DeviceEvent};
use vstd::prelude::*;

verus! {

/// The two states of the monitor loop.
#[derive(Clone, Copy, Debug, PartialEq, Eq, Structural)]
pub enum Phase {
    Running,
    ShuttingDown,
}

/// The phase after one observation of the shutdown flag.
pub open spec fn spec_next_phase(current: Phase, shutdown_requested: bool) -> Phase {
    if shutdown_requested {
        Phase::ShuttingDown
    } else {
        current
    }
}

/// Observes the shutdown flag, as the loop does once per iteration, bounded
/// by the poll timeout.
pub fn next_phase(current: Phase, shutdown_requested: bool) -> (next: Phase)
    ensures
        next == spec_next_phase(current, shutdown_requested),
{
    if shutdown_requested {
        Phase::ShuttingDown
    } else {
        current
    }
}

/// The loop blocks on the poll again only while it is still running.
pub fn continue_running(phase: Phase) -> (r: bool)
    ensures
        r == (phase is Running),
{
    match phase {
        Phase::Running => true,
        Phase::ShuttingDown => false,
    }
}

/// Shutting down latches: no later observation of the flag returns the loop
/// to running, so the transition happens at most once.
pub proof fn lemma_shutdown_latches(shutdown_requested: bool)
    ensures
        spec_next_phase(Phase::ShuttingDown, shutdown_requested) == Phase::ShuttingDown,
{
}

/// A side-effect order handed to the dispatcher: play the cue for `action`
/// and show a notification naming `name`.
#[derive(Debug)]
pub struct Dispatch {
    pub name: String,
    pub action: Action,
}

/// The identity cache after one drained event: an Add records the derived
/// name under the device key, a Remove takes the key out, anything else
/// leaves the cache alone.
pub open spec fn spec_step_map(
    m: Map<Seq<char>, Seq<char>>,
    ev: DeviceEvent,
) -> Map<Seq<char>, Seq<char>> {
    if spec_classify(ev) is None {
        m
    } else {
        let c = spec_classify(ev)->0;
        if c.2 is Connected {
            m.insert(c.0, c.1)
        } else {
            m.remove(c.0)
        }
    }
}

/// The dispatch owed for one drained event: for an Add the derived name; for
/// a Remove the cached name when one was recorded, else the name derived
/// from the Remove event itself; nothing for an irrelevant event.
pub open spec fn spec_step_out(
    m: Map<Seq<char>, Seq<char>>,
    ev: DeviceEvent,
) -> Option<(Seq<char>, Action)> {
    if spec_classify(ev) is None {
        None
    } else {
        let c = spec_classify(ev)->0;
        if c.2 is Connected {
            Some((c.1, Action::Connected))
        } else {
            Some(((if m.contains_key(c.0) { m[c.0] } else { c.1 }), Action::Disconnected))
        }
    }
}

/// Handles one drained event: classifies it, updates the identity cache and
/// returns the dispatch to fan out, if any. Irrelevant events change nothing
/// and trigger nothing.
pub fn handle_event(cache: &mut NameCache, ev: &DeviceEvent) -> (dispatch: Option<Dispatch>)
    requires
        old(cache).wf(),
    ensures
        final(cache).wf(),
        final(cache)@ == spec_step_map(old(cache)@, *ev),
        dispatch is Some <==> spec_step_out(old(cache)@, *ev) is Some,
        dispatch is Some ==> dispatch->0.name@ == (spec_step_out(old(cache)@, *ev)->0).0,
        dispatch is Some ==> dispatch->0.action == (spec_step_out(old(cache)@, *ev)->0).1,
{
    let ghost m0 = cache@;
    match classify(ev) {
        None => None,
        Some(c) => match c.action {
            Action::Connected => {
                let name_out = c.name.clone();
                cache.record(c.key, c.name);
                Some(Dispatch { name: name_out, action: Action::Connected })
            },
            Action::Disconnected => {
                proof {
                    if !m0.contains_key(c.key@) {
                        assert(m0.remove(c.key@) =~= m0);
                    }
                }
                let name = cache.take(&c.key, c.name);
                Some(Dispatch { name, action: Action::Disconnected })
            },
        },
    }
}

/// The identity cache after a whole sequence of drained events, in delivery
/// order.
pub open spec fn spec_run_map(
    m: Map<Seq<char>, Seq<char>>,
    evs: Seq<DeviceEvent>,
) -> Map<Seq<char>, Seq<char>>
    decreases evs.len(),
{
    if evs.len() == 0 {
        m
    } else {
        spec_run_map(spec_step_map(m, evs[0]), evs.skip(1))
    }
}

/// The dispatch owed to each event of a drained sequence: one slot per
/// event, in delivery order.
pub open spec fn spec_run_outs(m: Map<Seq<char>, Seq<char>>, evs: Seq<DeviceEvent>) -> Seq<
    Option<(Seq<char>, Action)>,
>
    decreases evs.len(),
{
    if evs.len() == 0 {
        Seq::empty()
    } else {
        seq![spec_step_out(m, evs[0])] + spec_run_outs(spec_step_map(m, evs[0]), evs.skip(1))
    }
}

/// The dispatches actually issued: the filled slots, order kept.
pub open spec fn somes_of(outs: Seq<Option<(Seq<char>, Action)>>) -> Seq<(Seq<char>, Action)>
    decreases outs.len(),
{
    if outs.len() == 0 {
        Seq::empty()
    } else if outs[0] is Some {
        seq![outs[0]->0] + somes_of(outs.skip(1))
    } else {
        somes_of(outs.skip(1))
    }
}

/// What a dispatch says, as plain values.
pub open spec fn dispatch_view(d: Dispatch) -> (Seq<char>, Action) {
    (d.name@, d.action)
}

/// What a sequence of dispatches says, in order.
pub open spec fn dispatches_view(ds: Seq<Dispatch>) -> Seq<(Seq<char>, Action)> {
    ds.map_values(|d: Dispatch| dispatch_view(d))
}

/// Running a concatenation runs the parts in order.
pub proof fn lemma_run_map_concat(
    m: Map<Seq<char>, Seq<char>>,
    a: Seq<DeviceEvent>,
    b: Seq<DeviceEvent>,
)
    ensures
        spec_run_map(m, a + b) == spec_run_map(spec_run_map(m, a), b),
    decreases a.len(),
{
    if a.len() == 0 {
        assert(a + b =~= b);
    } else {
        assert((a + b)[0] == a[0]);
        assert((a + b).skip(1) =~= a.skip(1) + b);
        lemma_run_map_concat(spec_step_map(m, a[0]), a.skip(1), b);
    }
}

/// A run's cache after one more event is one step on the run's cache.
pub proof fn lemma_run_map_snoc(
    m: Map<Seq<char>, Seq<char>>,
    evs: Seq<DeviceEvent>,
    ev: DeviceEvent,
)
    ensures
        spec_run_map(m, evs.push(ev)) == spec_step_map(spec_run_map(m, evs), ev),
{
    assert(evs.push(ev) =~= evs + seq![ev]);
    lemma_run_map_concat(m, evs, seq![ev]);
    let m1 = spec_run_map(m, evs);
    let s1 = seq![ev];
    assert(s1[0] == ev);
    assert(s1.skip(1) =~= Seq::<DeviceEvent>::empty());
    assert(spec_run_map(spec_step_map(m1, ev), s1.skip(1)) == spec_step_map(m1, ev));
    assert(spec_run_map(m1, s1) == spec_step_map(m1, ev));
}

/// A run's outputs after one more event grow by that event's slot.
pub proof fn lemma_run_outs_snoc(
    m: Map<Seq<char>, Seq<char>>,
    evs: Seq<DeviceEvent>,
    ev: DeviceEvent,
)
    ensures
        spec_run_outs(m, evs.push(ev)) == spec_run_outs(m, evs) + seq![
            spec_step_out(spec_run_map(m, evs), ev),
        ],
    decreases evs.len(),
{
    if evs.len() == 0 {
        let s1 = evs.push(ev);
        assert(s1 =~= seq![ev]);
        assert(s1[0] == ev);
        assert(s1.skip(1) =~= Seq::<DeviceEvent>::empty());
        assert(spec_run_outs(spec_step_map(m, ev), s1.skip(1)) =~= Seq::<
            Option<(Seq<char>, Action)>,
        >::empty());
        assert(spec_run_outs(m, s1) =~= seq![spec_step_out(m, ev)]);
        assert(spec_run_outs(m, evs) =~= Seq::<Option<(Seq<char>, Action)>>::empty());
        assert(spec_run_map(m, evs) == m);
        assert(spec_run_outs(m, evs) + seq![spec_step_out(spec_run_map(m, evs), ev)] =~= seq![
            spec_step_out(m, ev),
        ]);
    } else {
        let m1 = spec_step_map(m, evs[0]);
        assert(evs.push(ev)[0] == evs[0]);
        assert(evs.push(ev).skip(1) =~= evs.skip(1).push(ev));
        lemma_run_outs_snoc(m1, evs.skip(1), ev);
        assert(spec_run_outs(m, evs.push(ev)) == seq![spec_step_out(m, evs[0])] + spec_run_outs(
            m1,
            evs.skip(1).push(ev),
        ));
        assert(spec_run_outs(m, evs) == seq![spec_step_out(m, evs[0])] + spec_run_outs(
            m1,
            evs.skip(1),
        ));
        assert(spec_run_map(m, evs) == spec_run_map(m1, evs.skip(1)));
        assert(seq![spec_step_out(m, evs[0])] + (spec_run_outs(m1, evs.skip(1)) + seq![
            spec_step_out(spec_run_map(m1, evs.skip(1)), ev),
        ]) =~= (seq![spec_step_out(m, evs[0])] + spec_run_outs(m1, evs.skip(1))) + seq![
            spec_step_out(spec_run_map(m1, evs.skip(1)), ev),
        ]);
    }
}

/// The filled slots of a grown output sequence.
pub proof fn lemma_somes_snoc(outs: Seq<Option<(Seq<char>, Action)>>, o: Option<(Seq<char>, Action)>)
    ensures
        o is Some ==> somes_of(outs.push(o)) == somes_of(outs) + seq![o->0],
        o is None ==> somes_of(outs.push(o)) == somes_of(outs),
    decreases outs.len(),
{
    if outs.len() == 0 {
        let s1 = outs.push(o);
        assert(s1.len() == 1);
        assert(s1[0] == o);
        assert(s1.skip(1) =~= Seq::<Option<(Seq<char>, Action)>>::empty());
        assert(somes_of(s1.skip(1)) =~= Seq::<(Seq<char>, Action)>::empty());
        assert(somes_of(outs) =~= Seq::<(Seq<char>, Action)>::empty());
        if o is Some {
            assert(somes_of(s1) == seq![o->0] + somes_of(s1.skip(1)));
            assert(seq![o->0] + somes_of(s1.skip(1)) =~= somes_of(outs) + seq![o->0]);
        } else {
            assert(somes_of(s1) == somes_of(s1.skip(1)));
        }
    } else {
        let s = outs.push(o);
        assert(s[0] == outs[0]);
        assert(s.skip(1) =~= outs.skip(1).push(o));
        lemma_somes_snoc(outs.skip(1), o);
        if outs[0] is Some {
            assert(somes_of(s) == seq![outs[0]->0] + somes_of(s.skip(1)));
            assert(somes_of(outs) == seq![outs[0]->0] + somes_of(outs.skip(1)));
            if o is Some {
                assert(seq![outs[0]->0] + (somes_of(outs.skip(1)) + seq![o->0]) =~= (seq![
                    outs[0]->0,
                ] + somes_of(outs.skip(1))) + seq![o->0]);
            }
        } else {
            assert(somes_of(s) == somes_of(s.skip(1)));
            assert(somes_of(outs) == somes_of(outs.skip(1)));
        }
    }
}

/// A run has one output slot per event.
pub proof fn lemma_run_outs_len(m: Map<Seq<char>, Seq<char>>, evs: Seq<DeviceEvent>)
    ensures
        spec_run_outs(m, evs).len() == evs.len(),
    decreases evs.len(),
{
    if evs.len() > 0 {
        lemma_run_outs_len(spec_step_map(m, evs[0]), evs.skip(1));
    }
}

/// Each output slot is the step on the cache built by the events before it.
pub proof fn lemma_run_outs_index(m: Map<Seq<char>, Seq<char>>, evs: Seq<DeviceEvent>, j: int)
    requires
        0 <= j < evs.len(),
    ensures
        spec_run_outs(m, evs)[j] == spec_step_out(spec_run_map(m, evs.take(j)), evs[j]),
    decreases j,
{
    lemma_run_outs_len(spec_step_map(m, evs[0]), evs.skip(1));
    if j == 0 {
        assert(evs.take(0) =~= Seq::<DeviceEvent>::empty());
        assert(spec_run_outs(m, evs)[0] == spec_step_out(m, evs[0]));
    } else {
        let m1 = spec_step_map(m, evs[0]);
        lemma_run_outs_index(m1, evs.skip(1), j - 1);
        assert(spec_run_outs(m, evs)[j] == spec_run_outs(m1, evs.skip(1))[j - 1]);
        assert(evs.skip(1)[j - 1] == evs[j]);
        assert(evs.take(j)[0] == evs[0]);
        assert(evs.take(j).skip(1) =~= evs.skip(1).take(j - 1));
        assert(spec_run_map(m, evs.take(j)) == spec_run_map(m1, evs.skip(1).take(j - 1)));
    }
}

/// The event concerns key `k` and is acted upon.
pub open spec fn touches_key(ev: DeviceEvent, k: Seq<char>) -> bool {
    spec_classify(ev) is Some && (spec_classify(ev)->0).0 == k
}

/// The event is an acted-upon Add of key `k`.
pub open spec fn adds_key(ev: DeviceEvent, k: Seq<char>) -> bool {
    touches_key(ev, k) && (spec_classify(ev)->0).2 is Connected
}

/// The event is an acted-upon Remove of key `k`.
pub open spec fn removes_key(ev: DeviceEvent, k: Seq<char>) -> bool {
    touches_key(ev, k) && (spec_classify(ev)->0).2 is Disconnected
}

/// Events that never touch key `k` leave its cache entry alone.
pub proof fn lemma_untouched_key_preserved(
    m: Map<Seq<char>, Seq<char>>,
    evs: Seq<DeviceEvent>,
    k: Seq<char>,
)
    requires
        forall|l: int| 0 <= l < evs.len() ==> !touches_key(#[trigger] evs[l], k),
    ensures
        spec_run_map(m, evs).contains_key(k) == m.contains_key(k),
        m.contains_key(k) ==> spec_run_map(m, evs)[k] == m[k],
    decreases evs.len(),
{
    if evs.len() > 0 {
        let m1 = spec_step_map(m, evs[0]);
        assert(!touches_key(evs[0], k));
        assert(m1.contains_key(k) == m.contains_key(k) && (m.contains_key(k) ==> m1[k] == m[k]));
        assert(forall|l: int| 0 <= l < evs.skip(1).len() ==> !touches_key(
            #[trigger] evs.skip(1)[l],
            k,
        ));
        lemma_untouched_key_preserved(m1, evs.skip(1), k);
    }
}

/// A key never added stays out of the cache.
pub proof fn lemma_never_added_stays_absent(
    m: Map<Seq<char>, Seq<char>>,
    evs: Seq<DeviceEvent>,
    k: Seq<char>,
)
    requires
        !m.contains_key(k),
        forall|l: int| 0 <= l < evs.len() ==> !adds_key(#[trigger] evs[l], k),
    ensures
        !spec_run_map(m, evs).contains_key(k),
    decreases evs.len(),
{
    if evs.len() > 0 {
        let m1 = spec_step_map(m, evs[0]);
        assert(!adds_key(evs[0], k));
        assert(!m1.contains_key(k));
        assert(forall|l: int| 0 <= l < evs.skip(1).len() ==> !adds_key(
            #[trigger] evs.skip(1)[l],
            k,
        ));
        lemma_never_added_stays_absent(m1, evs.skip(1), k);
    }
}

/// For an Add of key `k` followed eventually by a Remove of `k`, with no
/// other acted-upon event touching `k` in between, the Remove is dispatched
/// with the name derived at Add time — whatever descriptive properties the
/// Remove event itself still carries.
pub proof fn lemma_remove_uses_recorded_name(
    m: Map<Seq<char>, Seq<char>>,
    evs: Seq<DeviceEvent>,
    i: int,
    j: int,
    k: Seq<char>,
)
    requires
        0 <= i < j < evs.len(),
        adds_key(evs[i], k),
        removes_key(evs[j], k),
        forall|l: int| i < l < j ==> !touches_key(#[trigger] evs[l], k),
    ensures
        spec_run_outs(m, evs)[j] == Some((spec_device_name(evs[i]), Action::Disconnected)),
{
    let name_i = spec_device_name(evs[i]);
    let mi = spec_run_map(m, evs.take(i));
    let mi1 = spec_run_map(m, evs.take(i + 1));
    assert(evs.take(i + 1) =~= evs.take(i).push(evs[i]));
    lemma_run_map_snoc(m, evs.take(i), evs[i]);
    assert(mi1 == spec_step_map(mi, evs[i]));
    assert(mi1 == mi.insert(k, name_i));
    let seg = evs.subrange(i + 1, j);
    assert(evs.take(j) =~= evs.take(i + 1) + seg);
    lemma_run_map_concat(m, evs.take(i + 1), seg);
    let mj = spec_run_map(m, evs.take(j));
    assert(mj == spec_run_map(mi1, seg));
    assert(forall|l: int| 0 <= l < seg.len() ==> !touches_key(#[trigger] seg[l], k));
    lemma_untouched_key_preserved(mi1, seg, k);
    assert(mj.contains_key(k) && mj[k] == name_i);
    lemma_run_outs_index(m, evs, j);
    assert(spec_run_outs(m, evs)[j] == spec_step_out(mj, evs[j]));
}

/// A Remove of a key never added since the process started is dispatched
/// with the name derived from the Remove event's own properties.
pub proof fn lemma_remove_unseen_uses_event_name(evs: Seq<DeviceEvent>, j: int, k: Seq<char>)
    requires
        0 <= j < evs.len(),
        removes_key(evs[j], k),
        forall|l: int| 0 <= l < j ==> !adds_key(#[trigger] evs[l], k),
    ensures
        spec_run_outs(Map::<Seq<char>, Seq<char>>::empty(), evs)[j] == Some(
            (spec_device_name(evs[j]), Action::Disconnected),
        ),
{
    let m = Map::<Seq<char>, Seq<char>>::empty();
    let pre = evs.take(j);
    assert(forall|l: int| 0 <= l < pre.len() ==> !adds_key(#[trigger] pre[l], k));
    lemma_never_added_stays_absent(m, pre, k);
    lemma_run_outs_index(m, evs, j);
}

/// Handles one wake's worth of drained events, in delivery order, and
/// returns the dispatches to fan out, in the same order.
pub fn drain_cycle(cache: &mut NameCache, events: &Vec<DeviceEvent>) -> (dispatches: Vec<
    Dispatch,
>)
    requires
        old(cache).wf(),
    ensures
        final(cache).wf(),
        final(cache)@ == spec_run_map(old(cache)@, events@),
        dispatches_view(dispatches@) == somes_of(spec_run_outs(old(cache)@, events@)),
{
    let ghost m0 = cache@;
    let mut dispatches: Vec<Dispatch> = Vec::new();
    let n = events.len();
    let mut idx: usize = 0;
    proof {
        assert(events@.take(0) =~= Seq::<DeviceEvent>::empty());
        assert(dispatches_view(dispatches@) =~= somes_of(spec_run_outs(m0, events@.take(0))));
    }
    while idx < n
        invariant
            n == events@.len(),
            idx <= n,
            cache.wf(),
            cache@ == spec_run_map(m0, events@.take(idx as int)),
            dispatches_view(dispatches@) == somes_of(spec_run_outs(m0, events@.take(idx as int))),
        decreases n - idx,
    {
        let ghost prefix = events@.take(idx as int);
        let ghost ds0 = dispatches@;
        let d = handle_event(cache, &events[idx]);
        let ghost out = spec_step_out(spec_run_map(m0, prefix), events@[idx as int]);
        match d {
            Some(dp) => {
                dispatches.push(dp);
                proof {
                    assert(dispatch_view(dp) == out->0);
                    assert(dispatches_view(ds0.push(dp)) =~= dispatches_view(ds0) + seq![
                        dispatch_view(dp),
                    ]);
                }
            },
            None => {},
        }
        proof {
            assert(events@.take(idx + 1) =~= prefix.push(events@[idx as int]));
            lemma_run_map_snoc(m0, prefix, events@[idx as int]);
            lemma_run_outs_snoc(m0, prefix, events@[idx as int]);
            assert(spec_run_outs(m0, prefix) + seq![out] =~= spec_run_outs(m0, prefix).push(out));
            lemma_somes_snoc(spec_run_outs(m0, prefix), out);
        }
        idx += 1;
    }
    proof {
        assert(events@.take(n as int) =~= events@);
    }
    dispatches
}

} // verus!
