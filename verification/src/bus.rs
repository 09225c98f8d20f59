//! The event bus: an append-only, idempotent log of envelopes with a
//! strictly increasing sequence number and replay from a cursor.
//!
//! The log lives in memory. A store that persists it keeps the rows that
//! [`Bus::rows`] shows and hands them back to [`Bus::restore`].

use crate::protocol::{Envelope, EnvelopeModel};
use crate::text::str_eq;
use vstd::prelude::*;

verus! {

/// The views of a run of envelopes.
pub open spec fn envelopes_view(rows: Seq<Envelope>) -> Seq<EnvelopeModel> {
    rows.map_values(|row: Envelope| row@)
}

/// Whether `rows` holds an envelope of this device with this message id.
pub open spec fn holds_message(
    rows: Seq<EnvelopeModel>,
    device_id: Seq<char>,
    message_id: Seq<char>,
) -> bool {
    exists|i: int|
        0 <= i < rows.len() && (#[trigger] rows[i]).device_id == device_id && rows[i].message_id
            == message_id
}

/// Whether the sequence numbers of `rows` grow strictly from row to row.
pub open spec fn seq_strictly_increasing(rows: Seq<EnvelopeModel>) -> bool {
    forall|i: int, j: int| 0 <= i < j < rows.len() ==> (#[trigger] rows[i]).seq < (#[trigger] rows[j]).seq
}

/// Whether no two of `rows` carry the same message id for the same device.
pub open spec fn messages_unique(rows: Seq<EnvelopeModel>) -> bool {
    forall|i: int, j: int|
        0 <= i < j < rows.len() ==> !((#[trigger] rows[i]).device_id == (#[trigger] rows[j]).device_id
            && rows[i].message_id == rows[j].message_id)
}

/// The rows whose sequence number lies after `after`, in log order.
pub open spec fn replay(rows: Seq<EnvelopeModel>, after: u64) -> Seq<EnvelopeModel>
    decreases rows.len(),
{
    if rows.len() == 0 {
        rows
    } else if rows.last().seq > after {
        replay(rows.drop_last(), after).push(rows.last())
    } else {
        replay(rows.drop_last(), after)
    }
}

/// What a [`Bus`] holds: the rows in the order in which they were
/// published, and the highest sequence number given out.
pub struct BusModel {
    pub rows: Seq<EnvelopeModel>,
    pub last_seq: u64,
}

impl BusModel {
    /// The empty log.
    pub open spec fn empty() -> BusModel {
        BusModel { rows: Seq::empty(), last_seq: 0 }
    }

    /// What every log keeps: one row per message id and device, sequence
    /// numbers that grow strictly, and `last_seq` the number of the newest
    /// row (0 for the empty log).
    pub open spec fn wf(self) -> bool {
        &&& messages_unique(self.rows)
        &&& seq_strictly_increasing(self.rows)
        &&& self.last_seq == if self.rows.len() == 0 {
            0
        } else {
            self.rows.last().seq
        }
    }

    /// Whether publishing `env` adds a row: it does unless the log holds
    /// its message id for its device already.
    pub open spec fn admits(self, env: EnvelopeModel) -> bool {
        !holds_message(self.rows, env.device_id, env.message_id)
    }

    /// The sequence number under which `env` is stored: its own when that
    /// lies ahead of the log, else the next free one.
    pub open spec fn assigned_seq(self, env: EnvelopeModel) -> u64 {
        if env.seq <= self.last_seq {
            (self.last_seq + 1) as u64
        } else {
            env.seq
        }
    }

    /// The log after `env` was published.
    pub open spec fn published(self, env: EnvelopeModel) -> BusModel {
        if self.admits(env) {
            BusModel {
                rows: self.rows.push(EnvelopeModel { seq: self.assigned_seq(env), ..env }),
                last_seq: self.assigned_seq(env),
            }
        } else {
            self
        }
    }
}

/// The persistent, idempotent, sequence-ordered log of envelopes.
pub struct Bus {
    rows: Vec<Envelope>,
    last_seq: u64,
}

impl View for Bus {
    type V = BusModel;

    closed spec fn view(&self) -> BusModel {
        BusModel { rows: envelopes_view(self.rows@), last_seq: self.last_seq }
    }
}

fn find_message(rows: &Vec<Envelope>, device_id: &str, message_id: &str) -> (found: bool)
    ensures
        found == holds_message(envelopes_view(rows@), device_id@, message_id@),
{
    let mut i: usize = 0;
    while i < rows.len()
        invariant
            i <= rows.len(),
            forall|j: int|
                0 <= j < i ==> !((#[trigger] envelopes_view(rows@)[j]).device_id == device_id@
                    && envelopes_view(rows@)[j].message_id == message_id@),
        decreases rows.len() - i,
    {
        if str_eq(rows[i].device_id.as_str(), device_id) && str_eq(
            rows[i].message_id.as_str(),
            message_id,
        ) {
            assert(envelopes_view(rows@)[i as int].device_id == device_id@);
            return true;
        }
        i += 1;
    }
    false
}

impl Bus {
    #[verifier::type_invariant]
    spec fn inv(self) -> bool {
        self@.wf()
    }

    /// An empty log.
    pub fn open_in_memory() -> (bus: Self)
        ensures
            bus@ == BusModel::empty(),
    {
        let rows: Vec<Envelope> = Vec::new();
        assert(envelopes_view(rows@) =~= Seq::<EnvelopeModel>::empty());
        Bus { rows, last_seq: 0 }
    }

    /// A log that holds `rows`, as a store handed them back. Rows that
    /// could not have been written by a log (a message id twice for one
    /// device, or sequence numbers that do not grow strictly) are refused.
    pub fn restore(rows: Vec<Envelope>) -> (bus: Option<Self>)
        ensures
            match bus {
                Some(bus) => bus@.rows == envelopes_view(rows@) && bus@.wf(),
                None => !(messages_unique(envelopes_view(rows@)) && seq_strictly_increasing(
                    envelopes_view(rows@),
                )),
            },
    {
        let ghost all = envelopes_view(rows@);
        let mut i: usize = 0;
        let mut last_seq: u64 = 0;
        while i < rows.len()
            invariant
                i <= rows.len(),
                all == envelopes_view(rows@),
                messages_unique(all.take(i as int)),
                seq_strictly_increasing(all.take(i as int)),
                last_seq == if i == 0 {
                    0
                } else {
                    all[i as int - 1].seq
                },
            decreases rows.len() - i,
        {
            let ghost front = all.take(i as int);
            let ghost next = all.take(i as int + 1);
            if i > 0 && rows[i].seq <= last_seq {
                proof {
                    if seq_strictly_increasing(all) {
                        assert(all[i as int - 1].seq < all[i as int].seq);
                    }
                }
                return None;
            }
            let mut j: usize = 0;
            while j < i
                invariant
                    j <= i,
                    i < rows.len(),
                    all == envelopes_view(rows@),
                    forall|k: int|
                        0 <= k < j ==> !((#[trigger] all[k]).device_id == all[i as int].device_id
                            && all[k].message_id == all[i as int].message_id),
                decreases i - j,
            {
                if str_eq(rows[j].device_id.as_str(), rows[i].device_id.as_str()) && str_eq(
                    rows[j].message_id.as_str(),
                    rows[i].message_id.as_str(),
                ) {
                    proof {
                        if messages_unique(all) {
                            assert(!(all[j as int].device_id == all[i as int].device_id
                                && all[j as int].message_id == all[i as int].message_id));
                        }
                    }
                    return None;
                }
                j += 1;
            }
            proof {
                assert forall|a: int, b: int| 0 <= a < b < next.len() implies (#[trigger] next[a]).seq
                    < (#[trigger] next[b]).seq by {
                    if b < i {
                        assert(front[a].seq < front[b].seq);
                    } else if a < i - 1 {
                        assert(front[a].seq < front[i as int - 1].seq);
                    }
                }
                assert forall|a: int, b: int| 0 <= a < b < next.len() implies !((
                #[trigger] next[a]).device_id == (#[trigger] next[b]).device_id
                    && next[a].message_id == next[b].message_id) by {
                    if b < i {
                        assert(!(front[a].device_id == front[b].device_id && front[a].message_id
                            == front[b].message_id));
                    } else {
                        assert(next[a] == all[a]);
                    }
                }
            }
            last_seq = rows[i].seq;
            i += 1;
        }
        assert(all.take(i as int) =~= all);
        Some(Bus { rows, last_seq })
    }

    /// The highest sequence number given out so far; 0 for an empty log.
    pub fn last_seq(&self) -> (seq: u64)
        ensures
            seq == self@.last_seq,
    {
        self.last_seq
    }

    /// The rows of the log, oldest first.
    pub fn rows(&self) -> (rows: &Vec<Envelope>)
        ensures
            envelopes_view(rows@) == self@.rows,
    {
        &self.rows
    }

    /// Publishes `env`. An envelope whose message id the log already holds
    /// for its device changes nothing and gives `false`. Any other is
    /// stored under a sequence number ahead of every stored one, its own
    /// if that is ahead, and gives `true`.
    pub fn publish(&mut self, env: Envelope) -> (inserted: bool)
        requires
            old(self)@.last_seq < u64::MAX,
        ensures
            inserted == old(self)@.admits(env@),
            final(self)@ == old(self)@.published(env@),
            final(self)@.wf(),
    {
        proof {
            use_type_invariant(&*self);
        }
        if find_message(&self.rows, env.device_id.as_str(), env.message_id.as_str()) {
            return false;
        }
        let ghost given = env@;
        let mut stored = env;
        if stored.seq <= self.last_seq {
            stored.seq = self.last_seq + 1;
        }
        let seq = stored.seq;
        let mut taken = Bus::open_in_memory();
        core::mem::swap(self, &mut taken);
        let mut rows = taken.rows;
        let ghost before = envelopes_view(rows@);
        rows.push(stored);
        proof {
            let after = envelopes_view(rows@);
            assert(after =~= before.push(stored@));
            assert(stored@ == (EnvelopeModel { seq, ..given }));
            publish_keeps_wf(old(self)@, given);
        }
        *self = Bus { rows, last_seq: seq };
        true
    }

    /// The envelopes stored under a sequence number after `after_seq`, in
    /// ascending order of sequence number.
    pub fn replay_from_seq(&self, after_seq: u64) -> (events: Vec<Envelope>)
        ensures
            envelopes_view(events@) == replay(self@.rows, after_seq),
    {
        let ghost all = envelopes_view(self.rows@);
        let mut events: Vec<Envelope> = Vec::new();
        let mut i: usize = 0;
        assert(envelopes_view(events@) =~= replay(all.take(0), after_seq));
        while i < self.rows.len()
            invariant
                i <= self.rows.len(),
                all == envelopes_view(self.rows@),
                envelopes_view(events@) == replay(all.take(i as int), after_seq),
            decreases self.rows.len() - i,
        {
            let ghost next = all.take(i as int + 1);
            let ghost before = envelopes_view(events@);
            assert(next.drop_last() =~= all.take(i as int));
            assert(next.last() == all[i as int]);
            if self.rows[i].seq > after_seq {
                events.push(self.rows[i].clone());
                assert(envelopes_view(events@) =~= before.push(all[i as int]));
            }
            i += 1;
        }
        assert(all.take(i as int) =~= all);
        events
    }
}

/// Publishing keeps what every log keeps, as long as sequence numbers are
/// left.
pub proof fn publish_keeps_wf(bus: BusModel, env: EnvelopeModel)
    requires
        bus.wf(),
        bus.last_seq < u64::MAX,
    ensures
        bus.published(env).wf(),
        bus.published(env).last_seq >= bus.last_seq,
{
    if bus.admits(env) {
        let seq = bus.assigned_seq(env);
        let row = EnvelopeModel { seq, ..env };
        let after = bus.rows.push(row);
        assert forall|i: int, j: int| 0 <= i < j < after.len() implies (#[trigger] after[i]).seq < (
        #[trigger] after[j]).seq by {
            if j < bus.rows.len() {
                assert(bus.rows[i].seq < bus.rows[j].seq);
            } else if i < bus.rows.len() - 1 {
                assert(bus.rows[i].seq < bus.rows[bus.rows.len() - 1].seq);
            }
        }
        assert forall|i: int, j: int| 0 <= i < j < after.len() implies !((
        #[trigger] after[i]).device_id == (#[trigger] after[j]).device_id && after[i].message_id
            == after[j].message_id) by {
            if j < bus.rows.len() {
                assert(!(bus.rows[i].device_id == bus.rows[j].device_id && bus.rows[i].message_id
                    == bus.rows[j].message_id));
            } else {
                assert(after[i] == bus.rows[i]);
            }
        }
    }
}

/// Publishing is idempotent in the message id within a device: once an
/// envelope was published, publishing any envelope with its message id and
/// device again changes nothing and is answered with `false`.
pub proof fn publish_is_idempotent(bus: BusModel, env: EnvelopeModel, again: EnvelopeModel)
    requires
        again.device_id == env.device_id,
        again.message_id == env.message_id,
    ensures
        !bus.published(env).admits(again),
        bus.published(env).published(again) == bus.published(env),
{
    let after = bus.published(env);
    if bus.admits(env) {
        assert(after.rows[bus.rows.len() as int].device_id == env.device_id);
    }
}

/// A message id that the log holds for a device stays held, whatever is
/// published later.
pub proof fn published_message_stays(
    bus: BusModel,
    later: EnvelopeModel,
    device_id: Seq<char>,
    message_id: Seq<char>,
)
    requires
        holds_message(bus.rows, device_id, message_id),
    ensures
        holds_message(bus.published(later).rows, device_id, message_id),
{
    let i = choose|i: int|
        0 <= i < bus.rows.len() && (#[trigger] bus.rows[i]).device_id == device_id
            && bus.rows[i].message_id == message_id;
    assert(bus.published(later).rows[i] == bus.rows[i]);
}

/// Replay returns exactly the rows stored after the cursor: every row it
/// returns lies after the cursor and is a row of the log, and every row of
/// the log that lies after the cursor is returned.
pub proof fn replay_is_exact(rows: Seq<EnvelopeModel>, after: u64)
    ensures
        forall|k: int|
            0 <= k < replay(rows, after).len() ==> (#[trigger] replay(rows, after)[k]).seq > after
                && rows.contains(replay(rows, after)[k]),
        forall|i: int|
            0 <= i < rows.len() && (#[trigger] rows[i]).seq > after ==> replay(
                rows,
                after,
            ).contains(rows[i]),
        replay(rows, after).len() <= rows.len(),
    decreases rows.len(),
{
    if rows.len() > 0 {
        let front = rows.drop_last();
        let last = rows.last();
        replay_is_exact(front, after);
        let sub = replay(front, after);
        let out = replay(rows, after);
        assert forall|k: int| 0 <= k < out.len() implies (#[trigger] out[k]).seq > after
            && rows.contains(out[k]) by {
            if k < sub.len() {
                assert(out[k] == sub[k]);
                let w = choose|w: int| 0 <= w < front.len() && front[w] == sub[k];
                assert(rows[w] == sub[k]);
            } else {
                assert(rows[rows.len() - 1] == out[k]);
            }
        }
        assert forall|i: int| 0 <= i < rows.len() && (#[trigger] rows[i]).seq > after implies out.contains(
            rows[i],
        ) by {
            if i < front.len() {
                assert(front[i] == rows[i]);
                let w = choose|w: int| 0 <= w < sub.len() && sub[w] == front[i];
                assert(out[w] == rows[i]);
            } else {
                assert(out[out.len() - 1] == rows[i]);
            }
        }
    }
}

/// Replay keeps the order of the log: of a log whose sequence numbers grow
/// strictly it returns rows in strictly ascending order of sequence number.
pub proof fn replay_is_ascending(rows: Seq<EnvelopeModel>, after: u64)
    requires
        seq_strictly_increasing(rows),
    ensures
        seq_strictly_increasing(replay(rows, after)),
        replay(rows, after).len() > 0 ==> rows.len() > 0 && replay(rows, after).last().seq
            <= rows.last().seq,
    decreases rows.len(),
{
    if rows.len() > 0 {
        let front = rows.drop_last();
        assert forall|i: int, j: int| 0 <= i < j < front.len() implies (#[trigger] front[i]).seq < (
        #[trigger] front[j]).seq by {
            assert(rows[i].seq < rows[j].seq);
        }
        replay_is_ascending(front, after);
        let sub = replay(front, after);
        let out = replay(rows, after);
        if sub.len() > 0 {
            assert(front[front.len() - 1] == rows[rows.len() - 2]);
            assert(rows[rows.len() - 2].seq < rows[rows.len() - 1].seq);
        }
        assert forall|i: int, j: int| 0 <= i < j < out.len() implies (#[trigger] out[i]).seq < (
        #[trigger] out[j]).seq by {
            if j < sub.len() {
                assert(sub[i].seq < sub[j].seq);
            } else {
                assert(out[i] == sub[i]);
                if i < sub.len() - 1 {
                    assert(sub[i].seq < sub[sub.len() - 1].seq);
                }
            }
        }
    }
}

} // verus!
