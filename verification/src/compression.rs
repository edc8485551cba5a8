//! Shrinking recorded macros by dropping pointer movements that do not
//! position the pointer for a click, a release or a scroll.
use vstd::prelude::*;
use crate::types::{Macro, MacroEvent, MacroEventData, spec_duration_of, duration_of, clone_strings};

verus! {

/// Whether compression keeps the event at index `i`: every event that is not a
/// movement, and a movement only when the very next event is a press, a
/// release or a scroll.
pub open spec fn keeps(events: Seq<MacroEvent>, i: int) -> bool {
    ||| !events[i].event.spec_is_move()
    ||| (i + 1 < events.len() && events[i + 1].event.spec_is_pointer_action())
}

/// The events among the first `k` that compression keeps, in their order.
pub open spec fn kept_prefix(events: Seq<MacroEvent>, k: int) -> Seq<MacroEvent>
    decreases k,
{
    if k <= 0 {
        Seq::empty()
    } else if keeps(events, k - 1) {
        kept_prefix(events, k - 1).push(events[k - 1])
    } else {
        kept_prefix(events, k - 1)
    }
}

/// The events that compression keeps, in their order.
pub open spec fn compressed_events(events: Seq<MacroEvent>) -> Seq<MacroEvent> {
    kept_prefix(events, events.len() as int)
}

/// Decides, as the editor's compression does, whether the event at `i` stays:
/// a movement stays only if the first later event that is not a movement is a
/// press, a release or a scroll and no other movement lies between them.
fn keep_event(events: &Vec<MacroEvent>, i: usize) -> (keep: bool)
    requires
        i < events.len(),
    ensures
        keep == keeps(events@, i as int),
{
    let n = events.len();
    if !events[i].event.is_move() {
        return true;
    }
    // Look ahead for the next event that is not a movement.
    let mut next_action = false;
    let mut all_moves = true;
    let mut j = i + 1;
    while j < n
        invariant_except_break
            all_moves,
            !next_action,
        invariant
            i < j <= n,
            n == events.len(),
            forall|k: int| i < k < j ==> #[trigger] events@[k].event.spec_is_move(),
        ensures
            all_moves ==> !next_action && forall|k: int| i < k < n ==> #[trigger] events@[k].event.spec_is_move(),
            !all_moves ==> j < n && !events@[j as int].event.spec_is_move()
                && (next_action == events@[j as int].event.spec_is_pointer_action())
                && forall|k: int| i < k < j ==> #[trigger] events@[k].event.spec_is_move(),
        decreases n - j,
    {
        if events[j].event.is_move() {
            j = j + 1;
            continue;
        }
        all_moves = false;
        if events[j].event.is_pointer_action() {
            next_action = true;
        }
        break;
    }
    if !next_action {
        proof {
            if i + 1 < n && (all_moves || i + 1 < j) {
                assert(events@[i + 1].event.spec_is_move());
            }
        }
        return false;
    }
    // A later movement before the same action replaces this one.
    let mut keep = true;
    if !all_moves {
        if i + 1 < n && events[i + 1].event.is_move() {
            keep = false;
        }
    }
    proof {
        if j > i + 1 {
            assert(events@[i + 1].event.spec_is_move());
        }
    }
    keep
}

/// Removes the pointer movements that do not lead straight into a press, a
/// release or a scroll; the duration becomes the timestamp of the last event
/// kept, and name, tags, description and window stay as they are.
pub fn compress(m: &Macro) -> (res: Macro)
    ensures
        res.events@ == compressed_events(m.events@),
        res.duration_ms == spec_duration_of(compressed_events(m.events@)),
        res.name == m.name,
        res.tags@ == m.tags@,
        res.description == m.description,
        res.relative_window == m.relative_window,
{
    let events = &m.events;
    let n = events.len();
    let mut compressed: Vec<MacroEvent> = Vec::new();
    for i in 0..n
        invariant
            n == events.len(),
            compressed@ == kept_prefix(events@, i as int),
    {
        if keep_event(events, i) {
            compressed.push(events[i].clone());
        }
    }
    let duration_ms = duration_of(&compressed);
    Macro {
        name: m.name.clone(),
        events: compressed,
        duration_ms,
        tags: clone_strings(&m.tags),
        description: m.description.clone(),
        relative_window: m.relative_window.clone(),
    }
}

/// Compresses the macro that the editor hands over.
pub fn compress_macro(macro_data: Macro) -> (res: Macro)
    ensures
        res.events@ == compressed_events(macro_data.events@),
        res.duration_ms == spec_duration_of(compressed_events(macro_data.events@)),
        res.name == macro_data.name,
        res.tags@ == macro_data.tags@,
        res.description == macro_data.description,
        res.relative_window == macro_data.relative_window,
{
    compress(&macro_data)
}

} // verus!

verus! {

/// The events of `events` that are not pointer movements, in their order.
pub open spec fn non_moves(events: Seq<MacroEvent>) -> Seq<MacroEvent>
    decreases events.len(),
{
    if events.len() == 0 {
        Seq::empty()
    } else if events.last().event.spec_is_move() {
        non_moves(events.drop_last())
    } else {
        non_moves(events.drop_last()).push(events.last())
    }
}

proof fn lemma_kept_prefix_shape(events: Seq<MacroEvent>, k: int)
    requires
        0 <= k <= events.len(),
    ensures
        forall|p: int|
            0 <= p < kept_prefix(events, k).len() - 1 && #[trigger] kept_prefix(events, k)[p].event.spec_is_move()
                ==> kept_prefix(events, k)[p + 1].event.spec_is_pointer_action(),
        kept_prefix(events, k).len() > 0 && kept_prefix(events, k).last().event.spec_is_move()
            ==> k < events.len() && events[k].event.spec_is_pointer_action(),
    decreases k,
{
    if k > 0 {
        lemma_kept_prefix_shape(events, k - 1);
        let r = kept_prefix(events, k - 1);
        if keeps(events, k - 1) {
            let r2 = r.push(events[k - 1]);
            assert(kept_prefix(events, k) == r2);
            assert forall|p: int|
                0 <= p < r2.len() - 1 && #[trigger] r2[p].event.spec_is_move()
                    implies r2[p + 1].event.spec_is_pointer_action() by {
                if p < r.len() - 1 {
                    assert(r2[p] == r[p]);
                    assert(r2[p + 1] == r[p + 1]);
                } else {
                    assert(r2[p] == r.last());
                }
            }
        }
    }
}

proof fn lemma_all_kept(events: Seq<MacroEvent>, k: int)
    requires
        0 <= k <= events.len(),
        forall|i: int| 0 <= i < events.len() ==> keeps(events, i),
    ensures
        kept_prefix(events, k) == events.take(k),
    decreases k,
{
    if k > 0 {
        lemma_all_kept(events, k - 1);
        assert(events.take(k - 1).push(events[k - 1]) == events.take(k));
    }
}

proof fn lemma_non_moves_kept(events: Seq<MacroEvent>, k: int)
    requires
        0 <= k <= events.len(),
    ensures
        non_moves(kept_prefix(events, k)) == non_moves(events.take(k)),
    decreases k,
{
    if k > 0 {
        lemma_non_moves_kept(events, k - 1);
        let t = events.take(k);
        assert(t.drop_last() == events.take(k - 1));
        assert(t.last() == events[k - 1]);
        if keeps(events, k - 1) {
            let r = kept_prefix(events, k - 1);
            assert(r.push(events[k - 1]).drop_last() == r);
        }
    }
}

/// Every pointer movement that survives compression is immediately followed,
/// in the compressed macro, by a press, a release or a scroll.
pub proof fn law_kept_moves_lead_to_actions(events: Seq<MacroEvent>)
    ensures
        forall|p: int|
            0 <= p < compressed_events(events).len() && #[trigger] compressed_events(events)[p].event.spec_is_move()
                ==> p + 1 < compressed_events(events).len()
                && compressed_events(events)[p + 1].event.spec_is_pointer_action(),
{
    lemma_kept_prefix_shape(events, events.len() as int);
}

/// Compression never drops, reorders or alters an event that is not a pointer
/// movement.
pub proof fn law_compress_keeps_non_moves(events: Seq<MacroEvent>)
    ensures
        non_moves(compressed_events(events)) == non_moves(events),
{
    lemma_non_moves_kept(events, events.len() as int);
    assert(events.take(events.len() as int) == events);
}

/// Compressing an already compressed macro changes nothing.
pub proof fn law_compress_idempotent(events: Seq<MacroEvent>)
    ensures
        compressed_events(compressed_events(events)) == compressed_events(events),
{
    let r = compressed_events(events);
    law_kept_moves_lead_to_actions(events);
    assert forall|i: int| 0 <= i < r.len() implies keeps(r, i) by {
        if r[i].event.spec_is_move() {
            assert(i + 1 < r.len() && r[i + 1].event.spec_is_pointer_action());
        }
    }
    lemma_all_kept(r, r.len() as int);
    assert(r.take(r.len() as int) == r);
}

proof fn lemma_kept_prefix_extend(events: Seq<MacroEvent>, tail: Seq<MacroEvent>, k: int)
    requires
        0 <= k <= events.len(),
        tail.len() > 0,
        tail[0].event is MouseMove,
    ensures
        kept_prefix(events + tail, k) == kept_prefix(events, k),
    decreases k,
{
    if k > 0 {
        lemma_kept_prefix_extend(events, tail, k - 1);
        let e2 = events + tail;
        assert(e2[k - 1] == events[k - 1]);
        if k < events.len() {
            assert(e2[k] == events[k]);
        } else {
            assert(e2[k] == tail[0]);
        }
        assert(keeps(e2, k - 1) == keeps(events, k - 1));
    }
}

/// A pointer movement followed straight by a press, a release or a scroll is
/// kept, together with that action, wherever such a pair ends a macro: what
/// comes before is compressed as it would be on its own.
pub proof fn law_move_before_pointer_action_kept(events: Seq<MacroEvent>, mv: MacroEvent, act: MacroEvent)
    requires
        mv.event is MouseMove,
        act.event is MousePress || act.event is MouseRelease || act.event is Scroll,
    ensures
        compressed_events(events + seq![mv, act]) == compressed_events(events) + seq![mv, act],
{
    let tail = seq![mv, act];
    let e2 = events + tail;
    let n = events.len() as int;
    lemma_kept_prefix_extend(events, tail, n);
    assert(e2[n] == mv);
    assert(e2[n + 1] == act);
    assert(keeps(e2, n));
    assert(keeps(e2, n + 1));
    assert(kept_prefix(e2, n + 1) == kept_prefix(e2, n).push(mv));
    assert(kept_prefix(e2, n + 2) == kept_prefix(e2, n + 1).push(act));
    assert(kept_prefix(e2, n + 2) == kept_prefix(events, n).push(mv).push(act));
    assert(kept_prefix(events, n).push(mv).push(act) =~= kept_prefix(events, n) + tail);
    assert(e2.len() == n + 2);
}

} // verus!

