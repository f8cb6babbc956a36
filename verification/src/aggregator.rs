//! The temporal aggregator.
//!
//! Resolved records are routed by identity id to a per-identity group
//! (ids are dense, so a group's state sits at index `id`).  Within a group
//! the stage does two things, in order:
//!
//! * **Batching** — records are buffered and handed on in one batch when
//!   the buffer reaches a maximum size, or when a maximum latency has
//!   elapsed since the *oldest* buffered record arrived, whichever comes
//!   first.  The latency flush is timer-driven ([`Aggregator::poll`]), not
//!   input-driven, so a lone record does not linger.
//! * **Session windowing** — batched records feed a per-group session
//!   window in arrival order (never re-sorted).  While the gap between
//!   consecutive record timestamps stays within the configured bound the
//!   window stays open and only remembers the latest record; a larger gap,
//!   or inactivity observed by the timer, closes the window, and exactly
//!   the *last* record received in it is finalized (no merging).
//!
//! [`Aggregator::finish`] is the shutdown path: it flushes every buffered
//! batch and closes every open window so nothing in flight is lost.
//!
//! All timing is integer clock ticks on one clock: record timestamps, the
//! `now` arguments, the latency bound and the session gap must share a
//! unit (milliseconds in the default configuration).

use vstd::prelude::*;

use crate::tracker::SessionRecord;

verus! {

/// Per-identity aggregation state.
pub struct GroupState {
    /// Records buffered by the batching stage, in arrival order.
    pub batch: Vec<SessionRecord>,
    /// Arrival tick of the oldest buffered record; meaningful only while
    /// `batch` is non-empty.
    pub batch_oldest: i64,
    /// The open session window, represented by the last record received
    /// in it (only the last record of a window is ever finalized).
    pub window: Option<SessionRecord>,
}

/// One record arriving at a session window: an open window whose last
/// timestamp lies more than `gap` ticks back closes and finalizes its
/// last record; either way the record becomes the window's latest.
pub open spec fn window_step(
    w: Option<SessionRecord>,
    rec: SessionRecord,
    gap: int,
) -> (Option<SessionRecord>, Option<SessionRecord>) {
    match w {
        None => (Some(rec), None),
        Some(last) => if rec.timestamp - last.timestamp > gap {
            (Some(rec), Some(last))
        } else {
            (Some(rec), None)
        },
    }
}

pub open spec fn opt_to_seq(o: Option<SessionRecord>) -> Seq<SessionRecord> {
    match o {
        Some(r) => seq![r],
        None => Seq::empty(),
    }
}

/// A sequence of records arriving at a session window in order: the
/// resulting window and the finalized records, in arrival order.
pub open spec fn window_feed(
    w: Option<SessionRecord>,
    items: Seq<SessionRecord>,
    gap: int,
) -> (Option<SessionRecord>, Seq<SessionRecord>)
    decreases items.len(),
{
    if items.len() == 0 {
        (w, Seq::empty())
    } else {
        let prev = window_feed(w, items.drop_last(), gap);
        let stepped = window_step(prev.0, items.last(), gap);
        (stepped.0, prev.1 + opt_to_seq(stepped.1))
    }
}

/// The records of `s`, each paired with the identity id they belong to.
pub open spec fn with_id(id: usize, s: Seq<SessionRecord>) -> Seq<(usize, SessionRecord)>
    decreases s.len(),
{
    if s.len() == 0 {
        Seq::empty()
    } else {
        with_id(id, s.drop_last()).push((id, s.last()))
    }
}

/// The batching stage owes a flush: something is buffered and the oldest
/// buffered record has waited at least `max_latency` ticks.
pub open spec fn batch_due(g: GroupState, now: int, max_latency: int) -> bool {
    g.batch@.len() > 0 && now - g.batch_oldest >= max_latency
}

/// An open window is idle: its last record lies more than `gap` ticks
/// before `now`.
pub open spec fn window_idle(w: Option<SessionRecord>, now: int, gap: int) -> bool {
    match w {
        Some(last) => now - last.timestamp > gap,
        None => false,
    }
}

/// The window of a group after a timer tick has run its due batch (if
/// any) through the window, before idle closing.
pub open spec fn fed_window(g: GroupState, now: int, lat: int, gap: int) -> Option<SessionRecord> {
    if batch_due(g, now, lat) {
        window_feed(g.window, g.batch@, gap).0
    } else {
        g.window
    }
}

/// The records a group's due batch finalizes on a timer tick.
pub open spec fn fed_out(g: GroupState, now: int, lat: int, gap: int) -> Seq<SessionRecord> {
    if batch_due(g, now, lat) {
        window_feed(g.window, g.batch@, gap).1
    } else {
        Seq::empty()
    }
}

/// A group's window after a timer tick: fed, then closed if idle.
pub open spec fn group_poll_window(g: GroupState, now: int, lat: int, gap: int) -> Option<
    SessionRecord,
> {
    let w1 = fed_window(g, now, lat, gap);
    if window_idle(w1, now, gap) {
        None
    } else {
        w1
    }
}

/// Everything a group finalizes on a timer tick: what the due batch drove
/// out of the window, then the idle-closed window's last record.
pub open spec fn group_poll_out(g: GroupState, now: int, lat: int, gap: int) -> Seq<SessionRecord> {
    let w1 = fed_window(g, now, lat, gap);
    fed_out(g, now, lat, gap) + if window_idle(w1, now, gap) {
        opt_to_seq(w1)
    } else {
        Seq::empty()
    }
}

/// A group's buffer after a timer tick: emptied if the flush was due.
pub open spec fn group_poll_batch(g: GroupState, now: int, lat: int) -> Seq<SessionRecord> {
    if batch_due(g, now, lat) {
        Seq::empty()
    } else {
        g.batch@
    }
}

/// Everything a group finalizes on shutdown: the whole buffer runs
/// through the window and the window, if still open, closes.
pub open spec fn group_finish_out(g: GroupState, gap: int) -> Seq<SessionRecord> {
    let fed = window_feed(g.window, g.batch@, gap);
    fed.1 + opt_to_seq(fed.0)
}

/// What [`Aggregator::poll`] finalizes for the first `i` groups, in group
/// order.
pub open spec fn poll_outs(
    groups: Seq<GroupState>,
    now: int,
    lat: int,
    gap: int,
    i: int,
) -> Seq<(usize, SessionRecord)>
    decreases i,
{
    if i <= 0 {
        Seq::empty()
    } else {
        poll_outs(groups, now, lat, gap, i - 1) + with_id(
            (i - 1) as usize,
            group_poll_out(groups[i - 1], now, lat, gap),
        )
    }
}

/// What [`Aggregator::finish`] finalizes for the first `i` groups.
pub open spec fn finish_outs(groups: Seq<GroupState>, gap: int, i: int) -> Seq<
    (usize, SessionRecord),
>
    decreases i,
{
    if i <= 0 {
        Seq::empty()
    } else {
        finish_outs(groups, gap, i - 1) + with_id(
            (i - 1) as usize,
            group_finish_out(groups[i - 1], gap),
        )
    }
}

/// A group that has never buffered or windowed anything.
pub open spec fn fresh_group(g: GroupState) -> bool {
    g.batch@.len() == 0 && g.batch_oldest == 0 && g.window is None
}

/// The buffer of the group `id` before a push, empty if the group does
/// not exist yet.
pub open spec fn batch_before(groups: Seq<GroupState>, id: int) -> Seq<SessionRecord> {
    if id < groups.len() {
        groups[id].batch@
    } else {
        Seq::empty()
    }
}

/// The window of the group `id` before a push, closed if the group does
/// not exist yet.
pub open spec fn window_before(groups: Seq<GroupState>, id: int) -> Option<SessionRecord> {
    if id < groups.len() {
        groups[id].window
    } else {
        None
    }
}

/// The arrival tick of the oldest buffered record of group `id` once one
/// more record has been buffered at tick `now`.
pub open spec fn oldest_after(groups: Seq<GroupState>, id: int, now: int) -> int {
    if id < groups.len() && groups[id].batch@.len() > 0 {
        groups[id].batch_oldest as int
    } else {
        now
    }
}

/// The aggregation stage: per-identity groups plus the runtime
/// configuration.
pub struct Aggregator {
    /// Batch size bound; a group's buffer flushes on reaching it.
    pub max_batch: usize,
    /// Latency bound in ticks; a buffer flushes once its oldest record
    /// has waited this long.
    pub max_latency: i64,
    /// Session gap bound in ticks; a larger gap between consecutive
    /// records, or that much inactivity, closes a group's window.
    pub session_gap: i64,
    /// Per-identity state, indexed by identity id.
    pub groups: Vec<GroupState>,
}

/// Everything [`Aggregator::push`] guarantees about one call.
pub open spec fn push_rel(
    pre: Aggregator,
    post: Aggregator,
    id: int,
    rec: SessionRecord,
    now: int,
    out: Seq<(usize, SessionRecord)>,
) -> bool {
    let b1 = batch_before(pre.groups@, id).push(rec);
    let w0 = window_before(pre.groups@, id);
    let gap = pre.session_gap as int;
    &&& post.groups@.len() == if id + 1 > pre.groups@.len() {
        id + 1
    } else {
        pre.groups@.len() as int
    }
    &&& forall|j: int| 0 <= j < pre.groups@.len() && j != id ==> post.groups@[j] == pre.groups@[j]
    &&& forall|j: int|
        pre.groups@.len() <= j < post.groups@.len() && j != id ==> fresh_group(
            #[trigger] post.groups@[j],
        )
    &&& if b1.len() == pre.max_batch {
        // size-triggered flush: the batch runs through the session window
        &&& post.groups@[id].batch@.len() == 0
        &&& post.groups@[id].window == window_feed(w0, b1, gap).0
        &&& out == with_id(id as usize, window_feed(w0, b1, gap).1)
    } else {
        // still buffering
        &&& post.groups@[id].batch@ == b1
        &&& post.groups@[id].batch_oldest == oldest_after(pre.groups@, id, now)
        &&& post.groups@[id].window == w0
        &&& out == Seq::<(usize, SessionRecord)>::empty()
    }
}

/// Exchanges the group at `id` with `*g`, leaving every other group in
/// place.  (Verified code cannot hold a mutable borrow of one vector
/// element, so the exchange goes through `swap_remove` and `push`.)
fn swap_group(groups: &mut Vec<GroupState>, id: usize, g: &mut GroupState)
    requires
        id < old(groups)@.len(),
    ensures
        *final(g) == old(groups)@[id as int],
        final(groups)@ == old(groups)@.update(id as int, *old(g)),
{
    let n = groups.len();
    let taken = groups.swap_remove(id);
    let mut tmp = taken;
    core::mem::swap(g, &mut tmp);
    groups.push(tmp);
    if id + 1 < n {
        let x = groups.swap_remove(id);
        groups.push(x);
    }
    proof {
        assert(groups@ =~= old(groups)@.update(id as int, *old(g)));
    }
}

/// Runs `items`, in order, through the session window of group `id`,
/// pushing each finalized record onto `out` tagged with the id.
fn feed_window(
    window: &mut Option<SessionRecord>,
    items: Vec<SessionRecord>,
    gap: i64,
    id: usize,
    out: &mut Vec<(usize, SessionRecord)>,
)
    ensures
        *final(window) == window_feed(*old(window), items@, gap as int).0,
        final(out)@ == old(out)@ + with_id(id, window_feed(*old(window), items@, gap as int).1),
{
    let ghost orig = items@;
    let ghost w0 = *window;
    let mut items = items;
    while items.len() > 0
        invariant
            items@.len() <= orig.len(),
            items@ =~= orig.skip(orig.len() - items@.len()),
            *window == window_feed(w0, orig.take(orig.len() - items@.len()), gap as int).0,
            out@ == old(out)@ + with_id(
                id,
                window_feed(w0, orig.take(orig.len() - items@.len()), gap as int).1,
            ),
        decreases items@.len(),
    {
        let ghost k = orig.len() - items@.len();
        let rec = items.remove(0);
        proof {
            assert(rec == orig[k as int]);
            assert(items@ =~= orig.skip(k as int + 1));
            assert(orig.take(k as int + 1).drop_last() =~= orig.take(k as int));
            assert(orig.take(k as int + 1).last() == orig[k as int]);
        }
        let ghost fed_prev = window_feed(w0, orig.take(k as int), gap as int);
        let close = if let Some(last) = &*window {
            ((rec.timestamp as i128) - (last.timestamp as i128)) > (gap as i128)
        } else {
            false
        };
        if close {
            match window.take() {
                Some(last) => {
                    proof {
                        assert(window_feed(w0, orig.take(k as int + 1), gap as int).1
                            == fed_prev.1.push(last));
                        assert(with_id(id, fed_prev.1.push(last)) == with_id(
                            id,
                            fed_prev.1,
                        ).push((id, last))) by {
                            assert(fed_prev.1.push(last).drop_last() =~= fed_prev.1);
                        }
                    }
                    out.push((id, last));
                },
                None => {
                    proof {
                        assert(false);
                    }
                },
            }
        } else {
            proof {
                assert(window_feed(w0, orig.take(k as int + 1), gap as int).1 =~= fed_prev.1);
            }
        }
        *window = Some(rec);
    }
    proof {
        assert(orig.take(orig.len() as int) =~= orig);
    }
}

impl Aggregator {
    /// Well-formedness: a positive batch bound, non-negative timing
    /// bounds, and every buffer strictly below the batch bound (a buffer
    /// flushes the moment it reaches it).
    pub open spec fn wf(&self) -> bool {
        &&& self.max_batch >= 1
        &&& self.max_latency >= 0
        &&& self.session_gap >= 0
        &&& forall|i: int|
            0 <= i < self.groups@.len() ==> (#[trigger] self.groups@[i]).batch@.len()
                < self.max_batch
    }

    /// An aggregator with no groups and the given configuration.
    pub fn new(max_batch: usize, max_latency: i64, session_gap: i64) -> (a: Aggregator)
        requires
            max_batch >= 1,
            max_latency >= 0,
            session_gap >= 0,
        ensures
            a.wf(),
            a.max_batch == max_batch,
            a.max_latency == max_latency,
            a.session_gap == session_gap,
            a.groups@.len() == 0,
    {
        Aggregator { max_batch, max_latency, session_gap, groups: Vec::new() }
    }

    /// Routes one resolved record to its identity's group at clock tick
    /// `now`, creating groups up to `id` on first sight.
    ///
    /// The record joins the group's buffer; if that fills the buffer to
    /// `max_batch` the whole batch runs through the group's session
    /// window at once and the finalized records come back, tagged with
    /// the id.  Otherwise nothing is finalized yet — the latency flush
    /// belongs to [`Aggregator::poll`].
    pub fn push(&mut self, id: usize, rec: SessionRecord, now: i64) -> (out: Vec<
        (usize, SessionRecord),
    >)
        requires
            old(self).wf(),
            id < usize::MAX,
        ensures
            final(self).wf(),
            final(self).max_batch == old(self).max_batch,
            final(self).max_latency == old(self).max_latency,
            final(self).session_gap == old(self).session_gap,
            push_rel(*old(self), *final(self), id as int, rec, now as int, out@),
    {
        let mut out: Vec<(usize, SessionRecord)> = Vec::new();
        let needed = id + 1;
        while self.groups.len() < needed
            invariant
                needed == id + 1,
                self.max_batch == old(self).max_batch,
                self.max_latency == old(self).max_latency,
                self.session_gap == old(self).session_gap,
                old(self).groups@.len() <= self.groups@.len(),
                self.groups@.len() > old(self).groups@.len() ==> self.groups@.len() <= id + 1,
                forall|j: int|
                    0 <= j < old(self).groups@.len() ==> self.groups@[j] == old(self).groups@[j],
                forall|j: int|
                    old(self).groups@.len() <= j < self.groups@.len() ==> fresh_group(
                        #[trigger] self.groups@[j],
                    ),
            decreases id + 1 - self.groups@.len(),
        {
            self.groups.push(GroupState { batch: Vec::new(), batch_oldest: 0, window: None });
        }
        let mut g = GroupState { batch: Vec::new(), batch_oldest: 0, window: None };
        swap_group(&mut self.groups, id, &mut g);
        proof {
            assert(g.batch@ =~= batch_before(old(self).groups@, id as int));
        }
        if g.batch.len() == 0 {
            g.batch_oldest = now;
        }
        g.batch.push(rec);
        if g.batch.len() == self.max_batch {
            let mut items: Vec<SessionRecord> = Vec::new();
            core::mem::swap(&mut g.batch, &mut items);
            feed_window(&mut g.window, items, self.session_gap, id, &mut out);
            proof {
                assert(out@ =~= with_id(
                    id,
                    window_feed(
                        window_before(old(self).groups@, id as int),
                        batch_before(old(self).groups@, id as int).push(rec),
                        self.session_gap as int,
                    ).1,
                ));
            }
        }
        swap_group(&mut self.groups, id, &mut g);
        out
    }

    /// The timer-driven flush path, called at clock tick `now` whether or
    /// not input arrived.
    ///
    /// For every group, in id order: a buffer whose oldest record has
    /// waited at least `max_latency` ticks runs through the group's
    /// session window; then a window idle for more than `session_gap`
    /// ticks closes and finalizes its last record.
    pub fn poll(&mut self, now: i64) -> (out: Vec<(usize, SessionRecord)>)
        requires
            old(self).wf(),
        ensures
            final(self).wf(),
            final(self).max_batch == old(self).max_batch,
            final(self).max_latency == old(self).max_latency,
            final(self).session_gap == old(self).session_gap,
            final(self).groups@.len() == old(self).groups@.len(),
            forall|j: int|
                0 <= j < old(self).groups@.len() ==> (#[trigger] final(self).groups@[j]).batch@
                    == group_poll_batch(
                    old(self).groups@[j],
                    now as int,
                    old(self).max_latency as int,
                ),
            forall|j: int|
                0 <= j < old(self).groups@.len() ==> (#[trigger] final(self).groups@[j]).window
                    == group_poll_window(
                    old(self).groups@[j],
                    now as int,
                    old(self).max_latency as int,
                    old(self).session_gap as int,
                ),
            forall|j: int|
                0 <= j < old(self).groups@.len() && !batch_due(
                    old(self).groups@[j],
                    now as int,
                    old(self).max_latency as int,
                ) ==> (#[trigger] final(self).groups@[j]).batch_oldest == old(
                    self,
                ).groups@[j].batch_oldest,
            out@ == poll_outs(
                old(self).groups@,
                now as int,
                old(self).max_latency as int,
                old(self).session_gap as int,
                old(self).groups@.len() as int,
            ),
    {
        let ghost lat = self.max_latency as int;
        let ghost gap = self.session_gap as int;
        let n = self.groups.len();
        let mut out: Vec<(usize, SessionRecord)> = Vec::new();
        let mut i: usize = 0;
        while i < n
            invariant
                n == self.groups@.len(),
                n == old(self).groups@.len(),
                i <= n,
                self.max_batch == old(self).max_batch,
                self.max_latency == old(self).max_latency,
                self.session_gap == old(self).session_gap,
                lat == self.max_latency as int,
                gap == self.session_gap as int,
                old(self).wf(),
                forall|j: int| i <= j < n ==> self.groups@[j] == old(self).groups@[j],
                forall|j: int|
                    0 <= j < i ==> (#[trigger] self.groups@[j]).batch@ == group_poll_batch(
                        old(self).groups@[j],
                        now as int,
                        lat,
                    ),
                forall|j: int|
                    0 <= j < i ==> (#[trigger] self.groups@[j]).window == group_poll_window(
                        old(self).groups@[j],
                        now as int,
                        lat,
                        gap,
                    ),
                forall|j: int|
                    0 <= j < i && !batch_due(old(self).groups@[j], now as int, lat) ==> (
                    #[trigger] self.groups@[j]).batch_oldest == old(self).groups@[j].batch_oldest,
                out@ == poll_outs(old(self).groups@, now as int, lat, gap, i as int),
            decreases n - i,
        {
            let ghost gold = old(self).groups@[i as int];
            let mut g = GroupState { batch: Vec::new(), batch_oldest: 0, window: None };
            swap_group(&mut self.groups, i, &mut g);
            let due = g.batch.len() > 0 && ((now as i128) - (g.batch_oldest as i128)) >= (
            self.max_latency as i128);
            proof {
                assert(due == batch_due(gold, now as int, lat));
            }
            if due {
                let mut items: Vec<SessionRecord> = Vec::new();
                core::mem::swap(&mut g.batch, &mut items);
                feed_window(&mut g.window, items, self.session_gap, i, &mut out);
            }
            proof {
                assert(g.window == fed_window(gold, now as int, lat, gap));
                assert(g.batch@ =~= group_poll_batch(gold, now as int, lat));
            }
            let ghost out_mid = out@;
            let ghost w1 = fed_window(gold, now as int, lat, gap);
            let idle = if let Some(last) = &g.window {
                ((now as i128) - (last.timestamp as i128)) > (self.session_gap as i128)
            } else {
                false
            };
            if idle {
                match g.window.take() {
                    Some(l) => {
                        out.push((i, l));
                    },
                    None => {
                        proof {
                            assert(false);
                        }
                    },
                }
            }
            proof {
                assert(g.window == group_poll_window(gold, now as int, lat, gap));
                if batch_due(gold, now as int, lat) {
                    if window_idle(w1, now as int, gap) {
                        let fed = fed_out(gold, now as int, lat, gap);
                        let l = w1->Some_0;
                        assert(group_poll_out(gold, now as int, lat, gap) =~= fed.push(l));
                        assert(with_id(i, fed.push(l)) == with_id(i, fed).push((i, l))) by {
                            assert(fed.push(l).drop_last() =~= fed);
                        }
                    } else {
                        assert(group_poll_out(gold, now as int, lat, gap) =~= fed_out(
                            gold,
                            now as int,
                            lat,
                            gap,
                        ));
                    }
                } else {
                    if window_idle(w1, now as int, gap) {
                        let l = w1->Some_0;
                        assert(group_poll_out(gold, now as int, lat, gap) =~= seq![l]);
                        assert(with_id(i, seq![l]) == with_id(i, Seq::empty()).push((i, l))) by {
                            assert(seq![l].drop_last() =~= Seq::<SessionRecord>::empty());
                            assert(seq![l].last() == l);
                        }
                    } else {
                        assert(group_poll_out(gold, now as int, lat, gap) =~= Seq::<
                            SessionRecord,
                        >::empty());
                    }
                }
                assert(out@ =~= poll_outs(old(self).groups@, now as int, lat, gap, i + 1));
            }
            swap_group(&mut self.groups, i, &mut g);
            i = i + 1;
        }
        out
    }

    /// The shutdown path: flushes every buffered batch through its
    /// group's session window and closes every open window, so exactly
    /// the in-flight state is finalized and nothing is discarded.
    pub fn finish(&mut self) -> (out: Vec<(usize, SessionRecord)>)
        requires
            old(self).wf(),
        ensures
            final(self).wf(),
            final(self).max_batch == old(self).max_batch,
            final(self).max_latency == old(self).max_latency,
            final(self).session_gap == old(self).session_gap,
            final(self).groups@.len() == old(self).groups@.len(),
            forall|j: int|
                0 <= j < final(self).groups@.len() ==> (#[trigger] final(self).groups@[j]).batch@
                    =~= Seq::<SessionRecord>::empty(),
            forall|j: int|
                0 <= j < final(self).groups@.len() ==> (#[trigger] final(self).groups@[j]).window
                    is None,
            out@ == finish_outs(
                old(self).groups@,
                old(self).session_gap as int,
                old(self).groups@.len() as int,
            ),
    {
        let ghost gap = self.session_gap as int;
        let n = self.groups.len();
        let mut out: Vec<(usize, SessionRecord)> = Vec::new();
        let mut i: usize = 0;
        while i < n
            invariant
                n == self.groups@.len(),
                n == old(self).groups@.len(),
                i <= n,
                self.max_batch == old(self).max_batch,
                self.max_latency == old(self).max_latency,
                self.session_gap == old(self).session_gap,
                gap == self.session_gap as int,
                old(self).wf(),
                forall|j: int| i <= j < n ==> self.groups@[j] == old(self).groups@[j],
                forall|j: int|
                    0 <= j < i ==> (#[trigger] self.groups@[j]).batch@.len() == 0,
                forall|j: int| 0 <= j < i ==> (#[trigger] self.groups@[j]).window is None,
                out@ == finish_outs(old(self).groups@, gap, i as int),
            decreases n - i,
        {
            let ghost gold = old(self).groups@[i as int];
            let mut g = GroupState { batch: Vec::new(), batch_oldest: 0, window: None };
            swap_group(&mut self.groups, i, &mut g);
            let mut items: Vec<SessionRecord> = Vec::new();
            core::mem::swap(&mut g.batch, &mut items);
            feed_window(&mut g.window, items, self.session_gap, i, &mut out);
            let ghost fed = window_feed(gold.window, gold.batch@, gap);
            match g.window.take() {
                Some(l) => {
                    proof {
                        assert(group_finish_out(gold, gap) =~= fed.1.push(l));
                        assert(with_id(i, fed.1.push(l)) == with_id(i, fed.1).push((i, l))) by {
                            assert(fed.1.push(l).drop_last() =~= fed.1);
                        }
                    }
                    out.push((i, l));
                },
                None => {
                    proof {
                        assert(group_finish_out(gold, gap) =~= fed.1);
                    }
                },
            }
            proof {
                assert(out@ =~= finish_outs(old(self).groups@, gap, i + 1));
            }
            swap_group(&mut self.groups, i, &mut g);
            i = i + 1;
        }
        out
    }
}

} // verus!
