//! Work queues keyed by group: a bounded per-group FIFO, and the execution
//! queue that hands work out under a global in-flight cap, one item per
//! group at a time, with bounded retry.

use crate::counting::saturating_succ_usize;
use crate::text::{lex_lt, lex_lt_transitive, str_eq, str_lt};
use std::collections::VecDeque;
use vstd::prelude::*;

verus! {

/// One group of a [`GroupQueue`] with the items waiting in it.
pub struct GroupLane<T> {
    key: String,
    items: VecDeque<T>,
}

/// What one group of a [`GroupQueue`] holds.
pub struct GroupLaneModel<T> {
    pub key: Seq<char>,
    pub items: Seq<T>,
}

impl<T> View for GroupLane<T> {
    type V = GroupLaneModel<T>;

    closed spec fn view(&self) -> GroupLaneModel<T> {
        GroupLaneModel { key: self.key@, items: self.items@ }
    }
}

/// The position of the first of the first `upto` keys that equals `key`.
pub open spec fn find_key(keys: Seq<Seq<char>>, key: Seq<char>, upto: int) -> Option<int>
    decreases upto,
{
    if upto <= 0 {
        None
    } else {
        match find_key(keys, key, upto - 1) {
            Some(i) => Some(i),
            None => if keys[upto - 1] == key {
                Some(upto - 1)
            } else {
                None
            },
        }
    }
}

/// A found position is in range, holds the key, and is the first to do so;
/// when nothing is found, none of the keys searched is the key.
pub proof fn find_key_finds_first(keys: Seq<Seq<char>>, key: Seq<char>, upto: int)
    requires
        0 <= upto <= keys.len(),
    ensures
        match find_key(keys, key, upto) {
            Some(i) => 0 <= i < upto && keys[i] == key && forall|j: int|
                0 <= j < i ==> #[trigger] keys[j] != key,
            None => forall|j: int| 0 <= j < upto ==> #[trigger] keys[j] != key,
        },
    decreases upto,
{
    if upto > 0 {
        find_key_finds_first(keys, key, upto - 1);
    }
}

/// Once a key is found among the first keys, it is found at the same place
/// among more of them.
pub proof fn find_key_extends(keys: Seq<Seq<char>>, key: Seq<char>, upto: int, more: int)
    requires
        0 <= upto <= more,
        find_key(keys, key, upto) is Some,
    ensures
        find_key(keys, key, more) == find_key(keys, key, upto),
    decreases more - upto,
{
    if upto < more {
        find_key_extends(keys, key, upto, more - 1);
    }
}

/// Finding a key depends only on the keys searched.
pub proof fn find_key_same_prefix(a: Seq<Seq<char>>, b: Seq<Seq<char>>, key: Seq<char>, upto: int)
    requires
        0 <= upto <= a.len(),
        upto <= b.len(),
        forall|j: int| 0 <= j < upto ==> #[trigger] a[j] == b[j],
    ensures
        find_key(a, key, upto) == find_key(b, key, upto),
    decreases upto,
{
    if upto > 0 {
        find_key_same_prefix(a, b, key, upto - 1);
    }
}

/// The keys of a list of lanes, in order.
pub open spec fn group_keys<T>(lanes: Seq<GroupLaneModel<T>>) -> Seq<Seq<char>> {
    lanes.map_values(|lane: GroupLaneModel<T>| lane.key)
}

/// The position of the first of the first `upto` lanes that is keyed `key`.
pub open spec fn find_group<T>(lanes: Seq<GroupLaneModel<T>>, key: Seq<char>, upto: int) -> Option<
    int,
> {
    find_key(group_keys(lanes), key, upto)
}

/// A found position is in range, holds the key, and is the first to do so;
/// when nothing is found no lane holds the key.
pub proof fn find_group_finds_first<T>(lanes: Seq<GroupLaneModel<T>>, key: Seq<char>, upto: int)
    requires
        0 <= upto <= lanes.len(),
    ensures
        match find_group(lanes, key, upto) {
            Some(i) => 0 <= i < upto && lanes[i].key == key && forall|j: int|
                0 <= j < i ==> (#[trigger] lanes[j]).key != key,
            None => forall|j: int| 0 <= j < upto ==> (#[trigger] lanes[j]).key != key,
        },
{
    let keys = group_keys(lanes);
    find_key_finds_first(keys, key, upto);
    match find_group(lanes, key, upto) {
        Some(i) => {
            assert forall|j: int| 0 <= j < i implies (#[trigger] lanes[j]).key != key by {
                assert(keys[j] != key);
            }
        },
        None => {
            assert forall|j: int| 0 <= j < upto implies (#[trigger] lanes[j]).key != key by {
                assert(keys[j] != key);
            }
        },
    }
}

/// What a [`GroupQueue`] holds: its lanes in the order in which their
/// groups first appeared, and the capacity of each.
pub struct GroupQueueModel<T> {
    pub lanes: Seq<GroupLaneModel<T>>,
    pub capacity: usize,
}

impl<T> GroupQueueModel<T> {
    /// The items waiting in `group`, oldest first; none when the group has
    /// never been used.
    pub open spec fn queue_of(self, group: Seq<char>) -> Seq<T> {
        match find_group(self.lanes, group, self.lanes.len() as int) {
            Some(i) => self.lanes[i].items,
            None => Seq::empty(),
        }
    }
}

/// Per-group FIFO queues, each holding at most `capacity` items.
pub struct GroupQueue<T> {
    per_group: Vec<GroupLane<T>>,
    capacity: usize,
}

/// The views of a list of lanes.
pub open spec fn group_lanes_view<T>(lanes: Seq<GroupLane<T>>) -> Seq<GroupLaneModel<T>> {
    lanes.map_values(|lane: GroupLane<T>| lane@)
}

impl<T> View for GroupQueue<T> {
    type V = GroupQueueModel<T>;

    closed spec fn view(&self) -> GroupQueueModel<T> {
        GroupQueueModel { lanes: group_lanes_view(self.per_group@), capacity: self.capacity }
    }
}

impl<T> GroupQueue<T> {
    /// An empty queue whose groups hold at most `capacity` items each.
    pub fn new(capacity: usize) -> (queue: Self)
        ensures
            queue@.capacity == capacity,
            forall|group: Seq<char>| (#[trigger] queue@.queue_of(group)).len() == 0,
    {
        let per_group: Vec<GroupLane<T>> = Vec::new();
        assert(group_lanes_view(per_group@) =~= Seq::<GroupLaneModel<T>>::empty());
        GroupQueue { per_group, capacity }
    }

    fn position(&self, group: &str) -> (found: Option<usize>)
        ensures
            match found {
                Some(i) => find_group(self@.lanes, group@, self@.lanes.len() as int) == Some(
                    i as int,
                ) && i < self.per_group@.len(),
                None => find_group(self@.lanes, group@, self@.lanes.len() as int) is None,
            },
    {
        let mut i: usize = 0;
        while i < self.per_group.len()
            invariant
                i <= self.per_group.len(),
                find_group(self@.lanes, group@, i as int) is None,
            decreases self.per_group.len() - i,
        {
            if str_eq(self.per_group[i].key.as_str(), group) {
                proof {
                    find_group_extends(self@.lanes, group@, i as int + 1, self@.lanes.len() as int);
                }
                return Some(i);
            }
            i += 1;
        }
        None
    }

    /// Appends `item` to `group` unless the group is full; a full group
    /// drops the item. No other group changes.
    pub fn push(&mut self, group: &str, item: T)
        ensures
            final(self)@.capacity == old(self)@.capacity,
            final(self)@.queue_of(group@) == if old(self)@.queue_of(group@).len() < old(
                self,
            )@.capacity {
                old(self)@.queue_of(group@).push(item)
            } else {
                old(self)@.queue_of(group@)
            },
            forall|other: Seq<char>|
                other != group@ ==> #[trigger] final(self)@.queue_of(other) == old(self)@.queue_of(
                    other,
                ),
    {
        let ghost before = self@.lanes;
        match self.position(group) {
            Some(i) => {
                let mut lane = self.per_group.remove(i);
                if lane.items.len() < self.capacity {
                    lane.items.push_back(item);
                }
                let ghost changed = lane@;
                self.per_group.insert(i, lane);
                proof {
                    assert(self@.lanes =~= before.update(i as int, changed));
                    find_group_finds_first(before, group@, before.len() as int);
                    assert(changed.key == before[i as int].key);
                    assert forall|other: Seq<char>| true implies #[trigger] self@.queue_of(other)
                        == if other == group@ {
                        changed.items
                    } else {
                        old(self)@.queue_of(other)
                    } by {
                        group_lane_replaced(old(self)@, group@, i as int, changed, other);
                    }
                }
            },
            None => {
                let mut items: VecDeque<T> = VecDeque::new();
                if 0 < self.capacity {
                    items.push_back(item);
                }
                let lane = GroupLane { key: group.to_owned(), items };
                let ghost added = lane@;
                self.per_group.push(lane);
                proof {
                    assert(self@.lanes =~= before.push(added));
                    assert forall|other: Seq<char>| true implies #[trigger] self@.queue_of(other)
                        == if other == group@ {
                        added.items
                    } else {
                        old(self)@.queue_of(other)
                    } by {
                        group_lane_added(old(self)@, added, other);
                    }
                    assert(old(self)@.queue_of(group@) =~= Seq::<T>::empty());
                    if 0 < self.capacity {
                        assert(added.items =~= Seq::<T>::empty().push(item));
                    }
                }
            },
        }
    }

    /// Takes the oldest item of `group`, if the group holds one. No other
    /// group changes.
    pub fn pop(&mut self, group: &str) -> (item: Option<T>)
        ensures
            final(self)@.capacity == old(self)@.capacity,
            item == if old(self)@.queue_of(group@).len() > 0 {
                Some(old(self)@.queue_of(group@)[0])
            } else {
                None
            },
            final(self)@.queue_of(group@) == if old(self)@.queue_of(group@).len() > 0 {
                old(self)@.queue_of(group@).skip(1)
            } else {
                old(self)@.queue_of(group@)
            },
            forall|other: Seq<char>|
                other != group@ ==> #[trigger] final(self)@.queue_of(other) == old(self)@.queue_of(
                    other,
                ),
    {
        let ghost before = self@.lanes;
        match self.position(group) {
            Some(i) => {
                let mut lane = self.per_group.remove(i);
                let item = lane.items.pop_front();
                let ghost changed = lane@;
                self.per_group.insert(i, lane);
                proof {
                    assert(self@.lanes =~= before.update(i as int, changed));
                    find_group_finds_first(before, group@, before.len() as int);
                    assert(changed.key == before[i as int].key);
                    assert forall|other: Seq<char>| true implies #[trigger] self@.queue_of(other)
                        == if other == group@ {
                        changed.items
                    } else {
                        old(self)@.queue_of(other)
                    } by {
                        group_lane_replaced(old(self)@, group@, i as int, changed, other);
                    }
                    if before[i as int].items.len() > 0 {
                        assert(changed.items =~= before[i as int].items.skip(1));
                    }
                }
                item
            },
            None => {
                assert(self@.queue_of(group@) =~= Seq::<T>::empty());
                None
            },
        }
    }
}

/// Once a key is found among the first lanes, it is found at the same place
/// among more of them.
pub proof fn find_group_extends<T>(
    lanes: Seq<GroupLaneModel<T>>,
    key: Seq<char>,
    upto: int,
    more: int,
)
    requires
        0 <= upto <= more,
        find_group(lanes, key, upto) is Some,
    ensures
        find_group(lanes, key, more) == find_group(lanes, key, upto),
{
    find_key_extends(group_keys(lanes), key, upto, more);
}

/// Finding a key depends only on the keys of the lanes searched.
pub proof fn find_group_same_keys<T>(
    a: Seq<GroupLaneModel<T>>,
    b: Seq<GroupLaneModel<T>>,
    key: Seq<char>,
    upto: int,
)
    requires
        0 <= upto <= a.len(),
        upto <= b.len(),
        forall|j: int| 0 <= j < upto ==> (#[trigger] a[j]).key == b[j].key,
    ensures
        find_group(a, key, upto) == find_group(b, key, upto),
{
    assert forall|j: int| 0 <= j < upto implies #[trigger] group_keys(a)[j] == group_keys(b)[j] by {
        assert(a[j].key == b[j].key);
    }
    find_key_same_prefix(group_keys(a), group_keys(b), key, upto);
}

/// Replacing the lane of a group by one with the same key changes what
/// that group holds and nothing else.
pub proof fn group_lane_replaced<T>(
    queue: GroupQueueModel<T>,
    group: Seq<char>,
    i: int,
    lane: GroupLaneModel<T>,
    other: Seq<char>,
)
    requires
        find_group(queue.lanes, group, queue.lanes.len() as int) == Some(i),
        lane.key == group,
    ensures
        (GroupQueueModel { lanes: queue.lanes.update(i, lane), ..queue }).queue_of(other)
            == if other == group {
            lane.items
        } else {
            queue.queue_of(other)
        },
{
    let n = queue.lanes.len() as int;
    let after = queue.lanes.update(i, lane);
    find_group_finds_first(queue.lanes, group, n);
    find_group_finds_first(queue.lanes, other, n);
    find_group_same_keys(queue.lanes, after, other, n);
}

/// Adding a lane for a group that had none changes what that group holds
/// and nothing else.
pub proof fn group_lane_added<T>(queue: GroupQueueModel<T>, lane: GroupLaneModel<T>, other: Seq<char>)
    requires
        find_group(queue.lanes, lane.key, queue.lanes.len() as int) is None,
    ensures
        (GroupQueueModel { lanes: queue.lanes.push(lane), ..queue }).queue_of(other) == if other
            == lane.key {
            lane.items
        } else {
            queue.queue_of(other)
        },
{
    let n = queue.lanes.len() as int;
    let after = queue.lanes.push(lane);
    find_group_finds_first(queue.lanes, other, n);
    find_group_same_keys(queue.lanes, after, other, n);
    assert(after[n] == lane);
    assert(find_group(after, other, n + 1) == match find_group(after, other, n) {
        Some(i) => Some(i),
        None => if after[n].key == other {
            Some(n)
        } else {
            None
        },
    });
}

/// How often a failed item is tried again, and how long it waits.
#[derive(Debug, Clone, Copy)]
pub struct RetryPolicy {
    pub max_attempts: usize,
    pub backoff_ms: u64,
}

impl RetryPolicy {
    pub fn new(max_attempts: usize, backoff_ms: u64) -> (policy: Self)
        ensures
            policy.max_attempts == max_attempts,
            policy.backoff_ms == backoff_ms,
    {
        RetryPolicy { max_attempts, backoff_ms }
    }
}

/// One unit of work in the execution queue.
#[derive(Debug)]
pub struct QueuedItem<T> {
    pub id: String,
    pub group: String,
    pub payload: T,
    pub attempts: usize,
    ready_at_ms: u64,
}

/// What a [`QueuedItem`] holds.
pub struct QueuedItemModel<T> {
    pub id: Seq<char>,
    pub group: Seq<char>,
    pub payload: T,
    pub attempts: usize,
    pub ready_at_ms: u64,
}

impl<T> View for QueuedItem<T> {
    type V = QueuedItemModel<T>;

    closed spec fn view(&self) -> QueuedItemModel<T> {
        QueuedItemModel {
            id: self.id@,
            group: self.group@,
            payload: self.payload,
            attempts: self.attempts,
            ready_at_ms: self.ready_at_ms,
        }
    }
}

impl<T> QueuedItem<T> {
    pub fn id(&self) -> (id: &str)
        ensures
            id@ == self@.id,
    {
        self.id.as_str()
    }

    pub fn group(&self) -> (group: &str)
        ensures
            group@ == self@.group,
    {
        self.group.as_str()
    }

    pub fn payload(&self) -> (payload: &T)
        ensures
            *payload == self@.payload,
    {
        &self.payload
    }

    /// How often the item has been handed out.
    pub fn attempts(&self) -> (attempts: usize)
        ensures
            attempts == self@.attempts,
    {
        self.attempts
    }

    /// The time from which the item may be handed out.
    pub fn ready_at_ms(&self) -> (ready_at_ms: u64)
        ensures
            ready_at_ms == self@.ready_at_ms,
    {
        self.ready_at_ms
    }

    fn new(id: &str, group: &str, payload: T) -> (item: Self)
        ensures
            item@ == QueuedItemModel::fresh(id@, group@, payload),
    {
        QueuedItem {
            id: id.to_owned(),
            group: group.to_owned(),
            payload,
            attempts: 0,
            ready_at_ms: 0,
        }
    }
}

impl<T> QueuedItemModel<T> {
    /// An item as it enters the queue: never tried, ready at once.
    pub open spec fn fresh(id: Seq<char>, group: Seq<char>, payload: T) -> QueuedItemModel<T> {
        QueuedItemModel { id, group, payload, attempts: 0, ready_at_ms: 0 }
    }

    /// The item as it is handed out: one more attempt counted.
    pub open spec fn attempted(self) -> QueuedItemModel<T> {
        QueuedItemModel {
            attempts: saturating_succ_usize(self.attempts),
            ..self
        }
    }

    /// The item as it waits for another attempt after a failure at `now`.
    pub open spec fn delayed(self, now: u64, backoff_ms: u64) -> QueuedItemModel<T> {
        QueuedItemModel {
            ready_at_ms: if now + backoff_ms <= u64::MAX {
                (now + backoff_ms) as u64
            } else {
                u64::MAX
            },
            ..self
        }
    }
}

/// One group of the execution queue.
pub struct Lane<T> {
    key: String,
    items: VecDeque<QueuedItem<T>>,
    busy: bool,
}

/// What one group of the execution queue holds: the items that wait, oldest
/// first, and whether an item of the group is in flight.
pub struct LaneModel<T> {
    pub key: Seq<char>,
    pub items: Seq<QueuedItemModel<T>>,
    pub busy: bool,
}

/// The views of a run of queued items.
pub open spec fn items_view<T>(items: Seq<QueuedItem<T>>) -> Seq<QueuedItemModel<T>> {
    items.map_values(|item: QueuedItem<T>| item@)
}

impl<T> View for Lane<T> {
    type V = LaneModel<T>;

    closed spec fn view(&self) -> LaneModel<T> {
        LaneModel { key: self.key@, items: items_view(self.items@), busy: self.busy }
    }
}

/// The views of a list of lanes.
pub open spec fn lanes_view<T>(lanes: Seq<Lane<T>>) -> Seq<LaneModel<T>> {
    lanes.map_values(|lane: Lane<T>| lane@)
}

/// The keys of a list of lanes, in order.
pub open spec fn lane_keys<T>(lanes: Seq<LaneModel<T>>) -> Seq<Seq<char>> {
    lanes.map_values(|lane: LaneModel<T>| lane.key)
}

/// The position of the lane keyed `group`.
pub open spec fn lane_of<T>(lanes: Seq<LaneModel<T>>, group: Seq<char>) -> Option<int> {
    find_key(lane_keys(lanes), group, lanes.len() as int)
}

/// Whether no two lanes share a key and every waiting item names the group
/// of its lane.
pub open spec fn lanes_wf<T>(lanes: Seq<LaneModel<T>>) -> bool {
    &&& forall|i: int, j: int|
        0 <= i < j < lanes.len() ==> (#[trigger] lanes[i]).key != (#[trigger] lanes[j]).key
    &&& forall|i: int, k: int|
        0 <= i < lanes.len() && 0 <= k < lanes[i].items.len() ==> (#[trigger] lanes[i].items[k]).group
            == lanes[i].key
}

/// `lanes` with `item` appended to the lane of its group, which is created
/// at the end when the group has none.
pub open spec fn lanes_with_item<T>(lanes: Seq<LaneModel<T>>, item: QueuedItemModel<T>) -> Seq<
    LaneModel<T>,
> {
    match lane_of(lanes, item.group) {
        Some(i) => lanes.update(i, LaneModel { items: lanes[i].items.push(item), ..lanes[i] }),
        None => lanes.push(LaneModel { key: item.group, items: seq![item], busy: false }),
    }
}

/// `lanes` with the lane of `group`, if there is one, no longer in flight.
pub open spec fn lanes_released<T>(lanes: Seq<LaneModel<T>>, group: Seq<char>) -> Seq<
    LaneModel<T>,
> {
    match lane_of(lanes, group) {
        Some(i) => lanes.update(i, LaneModel { busy: false, ..lanes[i] }),
        None => lanes,
    }
}

/// What the lane search finds, stated over the lanes themselves.
pub proof fn lane_of_finds<T>(lanes: Seq<LaneModel<T>>, group: Seq<char>)
    ensures
        match lane_of(lanes, group) {
            Some(i) => 0 <= i < lanes.len() && lanes[i].key == group,
            None => forall|j: int| 0 <= j < lanes.len() ==> (#[trigger] lanes[j]).key != group,
        },
{
    let keys = lane_keys(lanes);
    find_key_finds_first(keys, group, lanes.len() as int);
    if lane_of(lanes, group) is None {
        assert forall|j: int| 0 <= j < lanes.len() implies (#[trigger] lanes[j]).key != group by {
            assert(keys[j] != group);
        }
    }
}

/// Appending an item and releasing a group keep the lanes well formed and
/// keep every key where it was.
pub proof fn lane_updates_keep_wf<T>(lanes: Seq<LaneModel<T>>, item: QueuedItemModel<T>)
    requires
        lanes_wf(lanes),
    ensures
        lanes_wf(lanes_with_item(lanes, item)),
        lanes_wf(lanes_released(lanes, item.group)),
        lanes_released(lanes, item.group).len() == lanes.len(),
        lanes_with_item(lanes, item).len() >= lanes.len(),
{
    lane_of_finds(lanes, item.group);
    let with = lanes_with_item(lanes, item);
    match lane_of(lanes, item.group) {
        Some(i) => {
            assert forall|a: int, k: int|
                0 <= a < with.len() && 0 <= k < with[a].items.len() implies (
            #[trigger] with[a].items[k]).group == with[a].key by {
                if a == i && k < lanes[i].items.len() {
                    assert(with[a].items[k] == lanes[i].items[k]);
                } else if a != i {
                    assert(with[a].items[k] == lanes[a].items[k]);
                }
            }
        },
        None => {
            assert forall|a: int, k: int|
                0 <= a < with.len() && 0 <= k < with[a].items.len() implies (
            #[trigger] with[a].items[k]).group == with[a].key by {
                if a < lanes.len() {
                    assert(with[a].items[k] == lanes[a].items[k]);
                }
            }
        },
    }
    let released = lanes_released(lanes, item.group);
    assert forall|a: int, k: int|
        0 <= a < released.len() && 0 <= k < released[a].items.len() implies (
    #[trigger] released[a].items[k]).group == released[a].key by {
        assert(released[a].items[k] == lanes[a].items[k]);
    }
}

fn lane_position<T>(lanes: &Vec<Lane<T>>, group: &str) -> (found: Option<usize>)
    ensures
        match found {
            Some(i) => lane_of(lanes_view(lanes@), group@) == Some(i as int) && i < lanes@.len(),
            None => lane_of(lanes_view(lanes@), group@) is None,
        },
{
    let ghost keys = lane_keys(lanes_view(lanes@));
    let mut i: usize = 0;
    while i < lanes.len()
        invariant
            i <= lanes.len(),
            keys == lane_keys(lanes_view(lanes@)),
            find_key(keys, group@, i as int) is None,
        decreases lanes.len() - i,
    {
        if str_eq(lanes[i].key.as_str(), group) {
            proof {
                assert(keys[i as int] == group@);
                find_key_extends(keys, group@, i as int + 1, lanes@.len() as int);
            }
            return Some(i);
        }
        i += 1;
    }
    None
}

fn append_item<T>(lanes: &mut Vec<Lane<T>>, item: QueuedItem<T>)
    ensures
        lanes_view(final(lanes)@) == lanes_with_item(lanes_view(old(lanes)@), item@),
{
    let ghost before = lanes_view(lanes@);
    match lane_position(lanes, item.group.as_str()) {
        Some(i) => {
            let mut lane = lanes.remove(i);
            lane.items.push_back(item);
            let ghost changed = lane@;
            lanes.insert(i, lane);
            proof {
                assert(changed.items =~= before[i as int].items.push(item@));
                assert(lanes_view(lanes@) =~= before.update(i as int, changed));
            }
        },
        None => {
            let mut items: VecDeque<QueuedItem<T>> = VecDeque::new();
            let key = item.group.clone();
            items.push_back(item);
            let lane = Lane { key, items, busy: false };
            proof {
                assert(lane@.items =~= seq![item@]);
            }
            lanes.push(lane);
            assert(lanes_view(lanes@) =~= before.push(
                LaneModel { key: item@.group, items: seq![item@], busy: false },
            ));
        },
    }
}

fn release_group<T>(lanes: &mut Vec<Lane<T>>, group: &str)
    ensures
        lanes_view(final(lanes)@) == lanes_released(lanes_view(old(lanes)@), group@),
{
    let ghost before = lanes_view(lanes@);
    match lane_position(lanes, group) {
        Some(i) => {
            let mut lane = lanes.remove(i);
            lane.busy = false;
            let ghost changed = lane@;
            lanes.insert(i, lane);
            assert(lanes_view(lanes@) =~= before.update(i as int, changed));
        },
        None => {},
    }
}

/// What an [`ExecutionQueue`] holds: its lanes in the order in which their
/// groups first appeared, the cap on items in flight, the count of items in
/// flight, and the retry policy.
pub struct ExecutionQueueModel<T> {
    pub lanes: Seq<LaneModel<T>>,
    pub inflight_limit: usize,
    pub inflight: usize,
    pub retry: RetryPolicy,
}

/// The view of an optional queued item.
pub open spec fn opt_item_view<T>(item: Option<QueuedItem<T>>) -> Option<QueuedItemModel<T>> {
    match item {
        Some(item) => Some(item@),
        None => None,
    }
}

impl<T> ExecutionQueueModel<T> {
    /// An empty queue.
    pub open spec fn empty(inflight_limit: usize, retry: RetryPolicy) -> ExecutionQueueModel<T> {
        ExecutionQueueModel { lanes: Seq::empty(), inflight_limit, inflight: 0, retry }
    }

    /// What every queue keeps: lanes with distinct keys whose items name
    /// their group, and no more items in flight than the cap allows.
    pub open spec fn wf(self) -> bool {
        lanes_wf(self.lanes) && self.inflight <= self.inflight_limit
    }

    /// The items waiting in `group`, oldest first.
    pub open spec fn queue_of(self, group: Seq<char>) -> Seq<QueuedItemModel<T>> {
        match lane_of(self.lanes, group) {
            Some(i) => self.lanes[i].items,
            None => Seq::empty(),
        }
    }

    /// Whether an item of `group` is in flight.
    pub open spec fn group_in_flight(self, group: Seq<char>) -> bool {
        match lane_of(self.lanes, group) {
            Some(i) => self.lanes[i].busy,
            None => false,
        }
    }

    /// Whether lane `i` can hand out its oldest item at `now`: no item of
    /// the group is in flight, and the oldest item is ready.
    pub open spec fn lane_eligible(self, i: int, now: u64) -> bool {
        !self.lanes[i].busy && self.lanes[i].items.len() > 0 && self.lanes[i].items[0].ready_at_ms
            <= now
    }

    /// Among the first `upto` lanes, the eligible one whose key comes first
    /// in lexicographic order.
    pub open spec fn best_lane(self, now: u64, upto: int) -> Option<int>
        decreases upto,
    {
        if upto <= 0 {
            None
        } else {
            let earlier = self.best_lane(now, upto - 1);
            let i = upto - 1;
            if self.lane_eligible(i, now) && match earlier {
                Some(b) => lex_lt(self.lanes[i].key, self.lanes[b].key),
                None => true,
            } {
                Some(i)
            } else {
                earlier
            }
        }
    }

    /// The lane that hands out an item at `now`, if any does: none while
    /// the cap on items in flight is reached.
    pub open spec fn pick(self, now: u64) -> Option<int> {
        if self.inflight >= self.inflight_limit {
            None
        } else {
            self.best_lane(now, self.lanes.len() as int)
        }
    }

    /// The item handed out at `now`: the oldest item of the picked lane,
    /// with one more attempt counted.
    pub open spec fn handed_out(self, now: u64) -> Option<QueuedItemModel<T>> {
        match self.pick(now) {
            Some(i) => Some(self.lanes[i].items[0].attempted()),
            None => None,
        }
    }

    /// The queue after it was asked for work at `now`: the item handed out
    /// has left its lane, its group is in flight, and one more item is
    /// counted in flight.
    pub open spec fn after_next_ready(self, now: u64) -> ExecutionQueueModel<T> {
        match self.pick(now) {
            Some(i) => ExecutionQueueModel {
                lanes: self.lanes.update(
                    i,
                    LaneModel { items: self.lanes[i].items.skip(1), busy: true, ..self.lanes[i] },
                ),
                inflight: (self.inflight + 1) as usize,
                ..self
            },
            None => self,
        }
    }

    /// The queue after `item` was added.
    pub open spec fn after_enqueue(self, item: QueuedItemModel<T>) -> ExecutionQueueModel<T> {
        ExecutionQueueModel { lanes: lanes_with_item(self.lanes, item), ..self }
    }

    /// Whether a finished item is tried again: it failed and has attempts
    /// left.
    pub open spec fn retries(self, item: QueuedItemModel<T>, ok: bool) -> bool {
        !ok && item.attempts < self.retry.max_attempts
    }

    /// The queue after `item` finished at `now`: one item fewer in flight,
    /// its group released, and the item back at the end of its group, ready
    /// after the backoff, if it is tried again.
    pub open spec fn after_complete(self, item: QueuedItemModel<T>, ok: bool, now: u64) -> ExecutionQueueModel<
        T,
    > {
        let released = lanes_released(self.lanes, item.group);
        ExecutionQueueModel {
            lanes: if self.retries(item, ok) {
                lanes_with_item(released, item.delayed(now, self.retry.backoff_ms))
            } else {
                released
            },
            inflight: if self.inflight > 0 {
                (self.inflight - 1) as usize
            } else {
                0
            },
            ..self
        }
    }
}

/// Work waiting per group, handed out under a global cap on items in
/// flight and never two items of one group at a time.
pub struct ExecutionQueue<T> {
    per_group: Vec<Lane<T>>,
    inflight_limit: usize,
    inflight: usize,
    retry: RetryPolicy,
}

impl<T> View for ExecutionQueue<T> {
    type V = ExecutionQueueModel<T>;

    closed spec fn view(&self) -> ExecutionQueueModel<T> {
        ExecutionQueueModel {
            lanes: lanes_view(self.per_group@),
            inflight_limit: self.inflight_limit,
            inflight: self.inflight,
            retry: self.retry,
        }
    }
}

impl<T> ExecutionQueue<T> {
    #[verifier::type_invariant]
    spec fn inv(self) -> bool {
        self@.wf()
    }

    /// An empty queue that lets at most `inflight_limit` items be in flight.
    pub fn new(inflight_limit: usize, retry: RetryPolicy) -> (queue: Self)
        ensures
            queue@ == ExecutionQueueModel::<T>::empty(inflight_limit, retry),
    {
        let per_group: Vec<Lane<T>> = Vec::new();
        assert(lanes_view(per_group@) =~= Seq::<LaneModel<T>>::empty());
        ExecutionQueue { per_group, inflight_limit, inflight: 0, retry }
    }

    /// Adds an item to the end of `group`.
    pub fn enqueue(&mut self, group: &str, id: &str, payload: T)
        ensures
            final(self)@ == old(self)@.after_enqueue(QueuedItemModel::fresh(id@, group@, payload)),
            final(self)@.wf(),
    {
        proof {
            use_type_invariant(&*self);
        }
        let item = QueuedItem::new(id, group, payload);
        let mut lanes: Vec<Lane<T>> = Vec::new();
        assert(lanes_view(lanes@) =~= Seq::<LaneModel<T>>::empty());
        core::mem::swap(&mut self.per_group, &mut lanes);
        proof {
            lane_updates_keep_wf(lanes_view(lanes@), item@);
        }
        append_item(&mut lanes, item);
        self.per_group = lanes;
    }

    /// Hands out the oldest item of the first group, in key order, that has
    /// no item in flight and whose oldest item is ready at `now_ms`; nothing
    /// while the cap on items in flight is reached.
    pub fn next_ready(&mut self, now_ms: u64) -> (item: Option<QueuedItem<T>>)
        ensures
            opt_item_view(item) == old(self)@.handed_out(now_ms),
            final(self)@ == old(self)@.after_next_ready(now_ms),
            final(self)@.wf(),
    {
        proof {
            use_type_invariant(&*self);
        }
        if self.inflight >= self.inflight_limit {
            return None;
        }
        let mut best: Option<usize> = None;
        let mut i: usize = 0;
        while i < self.per_group.len()
            invariant
                i <= self.per_group.len(),
                match best {
                    Some(b) => self@.best_lane(now_ms, i as int) == Some(b as int) && b < i,
                    None => self@.best_lane(now_ms, i as int) is None,
                },
            decreases self.per_group.len() - i,
        {
            let lane = &self.per_group[i];
            assert(lane@ == self@.lanes[i as int]);
            let eligible = !lane.busy && lane.items.len() > 0 && lane.items[0].ready_at_ms
                <= now_ms;
            assert(eligible == self@.lane_eligible(i as int, now_ms));
            if eligible {
                let better = match best {
                    Some(b) => {
                        assert(self.per_group@[b as int]@ == self@.lanes[b as int]);
                        str_lt(lane.key.as_str(), self.per_group[b].key.as_str())
                    },
                    None => true,
                };
                if better {
                    best = Some(i);
                }
            }
            i += 1;
        }
        match best {
            None => None,
            Some(b) => {
                let ghost before = self@.lanes;
                let mut lanes: Vec<Lane<T>> = Vec::new();
                assert(lanes_view(lanes@) =~= Seq::<LaneModel<T>>::empty());
                core::mem::swap(&mut self.per_group, &mut lanes);
                proof {
                    best_lane_is_eligible(old(self)@, now_ms, before.len() as int);
                }
                let mut lane = lanes.remove(b);
                let popped = lane.items.pop_front();
                lane.busy = true;
                let ghost changed = lane@;
                lanes.insert(b, lane);
                proof {
                    assert(changed.items =~= before[b as int].items.skip(1));
                    assert(lanes_view(lanes@) =~= before.update(b as int, changed));
                    assert forall|a: int, k: int|
                        0 <= a < lanes_view(lanes@).len() && 0 <= k < lanes_view(
                            lanes@,
                        )[a].items.len() implies (#[trigger] lanes_view(lanes@)[a].items[k]).group
                        == lanes_view(lanes@)[a].key by {
                        if a == b {
                            assert(changed.items[k] == before[a].items[k + 1]);
                        } else {
                            assert(lanes_view(lanes@)[a].items[k] == before[a].items[k]);
                        }
                    }
                }
                self.inflight = self.inflight + 1;
                self.per_group = lanes;
                match popped {
                    Some(mut item) => {
                        if item.attempts < usize::MAX {
                            item.attempts = item.attempts + 1;
                        }
                        Some(item)
                    },
                    None => None,
                }
            },
        }
    }

    /// Takes back an item that was handed out: its group is released and
    /// one item fewer is in flight. An item that failed and has attempts
    /// left goes back to the end of its group and is ready again after the
    /// backoff; any other item is dropped.
    pub fn complete(&mut self, item: QueuedItem<T>, ok: bool, now_ms: u64)
        ensures
            final(self)@ == old(self)@.after_complete(item@, ok, now_ms),
            final(self)@.wf(),
    {
        proof {
            use_type_invariant(&*self);
        }
        if self.inflight > 0 {
            self.inflight = self.inflight - 1;
        }
        let mut lanes: Vec<Lane<T>> = Vec::new();
        assert(lanes_view(lanes@) =~= Seq::<LaneModel<T>>::empty());
        core::mem::swap(&mut self.per_group, &mut lanes);
        proof {
            lane_updates_keep_wf(lanes_view(lanes@), item@);
        }
        release_group(&mut lanes, item.group.as_str());
        if !ok && item.attempts < self.retry.max_attempts {
            let mut item = item;
            item.ready_at_ms = if now_ms <= u64::MAX - self.retry.backoff_ms {
                now_ms + self.retry.backoff_ms
            } else {
                u64::MAX
            };
            proof {
                lane_updates_keep_wf(lanes_view(lanes@), item@);
            }
            append_item(&mut lanes, item);
        }
        self.per_group = lanes;
    }
}

/// The lane picked among the first `upto` lanes is one of them and is
/// eligible.
pub proof fn best_lane_is_eligible<T>(queue: ExecutionQueueModel<T>, now: u64, upto: int)
    requires
        0 <= upto <= queue.lanes.len(),
    ensures
        queue.best_lane(now, upto) matches Some(b) ==> 0 <= b < upto && queue.lane_eligible(b, now),
    decreases upto,
{
    if upto > 0 {
        best_lane_is_eligible(queue, now, upto - 1);
    }
}

/// Replacing a lane by one with the same key leaves every group's lane
/// where it was.
pub proof fn lane_of_after_update<T>(
    lanes: Seq<LaneModel<T>>,
    i: int,
    lane: LaneModel<T>,
    group: Seq<char>,
)
    requires
        0 <= i < lanes.len(),
        lane.key == lanes[i].key,
    ensures
        lane_of(lanes.update(i, lane), group) == lane_of(lanes, group),
{
    let after = lanes.update(i, lane);
    assert forall|j: int| 0 <= j < lanes.len() implies #[trigger] lane_keys(lanes)[j] == lane_keys(
        after,
    )[j] by {
        assert(after[j].key == lanes[j].key);
    }
    find_key_same_prefix(lane_keys(lanes), lane_keys(after), group, lanes.len() as int);
}

/// A lane added at the end is found only under its own key, and only when
/// no earlier lane has that key.
pub proof fn lane_of_after_push<T>(lanes: Seq<LaneModel<T>>, lane: LaneModel<T>, group: Seq<char>)
    ensures
        lane_of(lanes.push(lane), group) == match lane_of(lanes, group) {
            Some(i) => Some(i),
            None => if lane.key == group {
                Some(lanes.len() as int)
            } else {
                None
            },
        },
{
    let after = lanes.push(lane);
    let n = lanes.len() as int;
    assert forall|j: int| 0 <= j < n implies #[trigger] lane_keys(lanes)[j] == lane_keys(after)[j] by {
        assert(after[j].key == lanes[j].key);
    }
    find_key_same_prefix(lane_keys(lanes), lane_keys(after), group, n);
    assert(lane_keys(after)[n] == lane.key);
    assert(find_key(lane_keys(after), group, n + 1) == match find_key(lane_keys(after), group, n) {
        Some(i) => Some(i),
        None => if lane_keys(after)[n] == group {
            Some(n)
        } else {
            None
        },
    });
}

/// Among lanes with distinct keys, each lane is the lane of its own key.
pub proof fn lane_of_own_key<T>(lanes: Seq<LaneModel<T>>, i: int)
    requires
        lanes_wf(lanes),
        0 <= i < lanes.len(),
    ensures
        lane_of(lanes, lanes[i].key) == Some(i),
{
    lane_of_finds(lanes, lanes[i].key);
}

/// Adding an item appends it to the queue of its group; no other queue
/// changes, and no group starts or stops being in flight.
pub proof fn enqueue_appends_to_group<T>(
    queue: ExecutionQueueModel<T>,
    item: QueuedItemModel<T>,
    group: Seq<char>,
)
    ensures
        queue.after_enqueue(item).queue_of(group) == if group == item.group {
            queue.queue_of(group).push(item)
        } else {
            queue.queue_of(group)
        },
        queue.after_enqueue(item).group_in_flight(group) == queue.group_in_flight(group),
        queue.after_enqueue(item).inflight == queue.inflight,
{
    lane_of_finds(queue.lanes, item.group);
    lane_of_finds(queue.lanes, group);
    match lane_of(queue.lanes, item.group) {
        Some(i) => {
            let lane = LaneModel { items: queue.lanes[i].items.push(item), ..queue.lanes[i] };
            lane_of_after_update(queue.lanes, i, lane, group);
        },
        None => {
            let lane = LaneModel { key: item.group, items: seq![item], busy: false };
            lane_of_after_push(queue.lanes, lane, group);
            assert(Seq::<QueuedItemModel<T>>::empty().push(item) =~= seq![item]);
        },
    }
}

/// An item is handed out only from a group that has none in flight, and
/// with it the group is in flight: the item is the oldest of its group, the
/// rest of the group moves up, and no other group changes.
pub proof fn next_ready_takes_oldest_of_free_group<T>(
    queue: ExecutionQueueModel<T>,
    now: u64,
    group: Seq<char>,
)
    requires
        queue.wf(),
    ensures
        match queue.handed_out(now) {
            Some(item) => {
                &&& !queue.group_in_flight(item.group)
                &&& queue.after_next_ready(now).group_in_flight(item.group)
                &&& queue.queue_of(item.group).len() > 0
                &&& item == queue.queue_of(item.group)[0].attempted()
                &&& queue.queue_of(item.group)[0].ready_at_ms <= now
                &&& queue.after_next_ready(now).queue_of(item.group) == queue.queue_of(
                    item.group,
                ).skip(1)
                &&& queue.after_next_ready(now).inflight == queue.inflight + 1
                &&& queue.inflight < queue.inflight_limit
                &&& group != item.group ==> queue.after_next_ready(now).queue_of(group)
                    == queue.queue_of(group) && queue.after_next_ready(now).group_in_flight(group)
                    == queue.group_in_flight(group)
            },
            None => queue.after_next_ready(now) == queue,
        },
{
    if let Some(i) = queue.pick(now) {
        best_lane_is_eligible(queue, now, queue.lanes.len() as int);
        lane_of_own_key(queue.lanes, i);
        let lane = LaneModel { items: queue.lanes[i].items.skip(1), busy: true, ..queue.lanes[i] };
        lane_of_after_update(queue.lanes, i, lane, group);
        lane_of_after_update(queue.lanes, i, lane, queue.lanes[i].key);
        lane_of_finds(queue.lanes, group);
        assert(queue.lanes[i].items[0].group == queue.lanes[i].key);
    }
}

/// The lane that hands out an item is, of all lanes that could, the one
/// whose key comes first.
pub proof fn picked_lane_comes_first<T>(queue: ExecutionQueueModel<T>, now: u64, upto: int, j: int)
    requires
        0 <= j < upto <= queue.lanes.len(),
        queue.lane_eligible(j, now),
    ensures
        queue.best_lane(now, upto) matches Some(b) && !lex_lt(
            queue.lanes[j].key,
            queue.lanes[b].key,
        ),
    decreases upto,
{
    let i = upto - 1;
    best_lane_is_eligible(queue, now, i);
    if j < i {
        picked_lane_comes_first(queue, now, i, j);
        let earlier = queue.best_lane(now, i)->0;
        if queue.best_lane(now, upto) == Some(i) && i != earlier {
            if lex_lt(queue.lanes[j].key, queue.lanes[i].key) {
                lex_lt_transitive(
                    queue.lanes[j].key,
                    queue.lanes[i].key,
                    queue.lanes[earlier].key,
                );
            }
        }
    } else {
        crate::text::lex_lt_irreflexive(queue.lanes[i].key);
    }
}

/// Taking an item back releases its group and, when it is tried again,
/// puts it at the end of its group, ready no earlier than the backoff after
/// `now`; no other group changes.
pub proof fn complete_releases_group<T>(
    queue: ExecutionQueueModel<T>,
    item: QueuedItemModel<T>,
    ok: bool,
    now: u64,
    group: Seq<char>,
)
    ensures
        queue.after_complete(item, ok, now).group_in_flight(group) == (group != item.group
            && queue.group_in_flight(group)),
        queue.after_complete(item, ok, now).queue_of(group) == if group == item.group
            && queue.retries(item, ok) {
            queue.queue_of(group).push(item.delayed(now, queue.retry.backoff_ms))
        } else {
            queue.queue_of(group)
        },
        item.delayed(now, queue.retry.backoff_ms).ready_at_ms >= now,
        now + queue.retry.backoff_ms <= u64::MAX ==> item.delayed(
            now,
            queue.retry.backoff_ms,
        ).ready_at_ms == now + queue.retry.backoff_ms,
{
    let released = lanes_released(queue.lanes, item.group);
    let middle = ExecutionQueueModel { lanes: released, ..queue };
    lane_of_finds(queue.lanes, item.group);
    lane_of_finds(queue.lanes, group);
    if let Some(i) = lane_of(queue.lanes, item.group) {
        lane_of_after_update(
            queue.lanes,
            i,
            LaneModel { busy: false, ..queue.lanes[i] },
            group,
        );
    }
    if queue.retries(item, ok) {
        enqueue_appends_to_group(middle, item.delayed(now, queue.retry.backoff_ms), group);
    }
}

/// One operation on the execution queue.
pub enum QueueInput<T> {
    Enqueue { item: QueuedItemModel<T> },
    NextReady { now: u64 },
    Complete { item: QueuedItemModel<T>, ok: bool, now: u64 },
}

impl<T> ExecutionQueueModel<T> {
    /// The queue after one operation.
    pub open spec fn after(self, input: QueueInput<T>) -> ExecutionQueueModel<T> {
        match input {
            QueueInput::Enqueue { item } => self.after_enqueue(item),
            QueueInput::NextReady { now } => self.after_next_ready(now),
            QueueInput::Complete { item, ok, now } => self.after_complete(item, ok, now),
        }
    }

    /// The queue after a run of operations, taken in order.
    pub open spec fn after_all(self, inputs: Seq<QueueInput<T>>) -> ExecutionQueueModel<T>
        decreases inputs.len(),
    {
        if inputs.len() == 0 {
            self
        } else {
            self.after(inputs[0]).after_all(inputs.skip(1))
        }
    }

    /// Whether some operation of the run hands out an item of `group`.
    pub open spec fn hands_out(self, inputs: Seq<QueueInput<T>>, group: Seq<char>) -> bool
        decreases inputs.len(),
    {
        if inputs.len() == 0 {
            false
        } else {
            (match inputs[0] {
                QueueInput::NextReady { now } => match self.handed_out(now) {
                    Some(item) => item.group == group,
                    None => false,
                },
                _ => false,
            }) || self.after(inputs[0]).hands_out(inputs.skip(1), group)
        }
    }
}

/// Whether none of `inputs` takes back an item of `group`.
pub open spec fn none_completes<T>(inputs: Seq<QueueInput<T>>, group: Seq<char>) -> bool {
    forall|i: int|
        0 <= i < inputs.len() ==> match #[trigger] inputs[i] {
            QueueInput::Complete { item, ok, now } => item.group != group,
            _ => true,
        }
}

/// No operation breaks what every queue keeps; in particular no more items
/// are in flight than the cap allows.
pub proof fn queue_input_keeps_wf<T>(queue: ExecutionQueueModel<T>, input: QueueInput<T>)
    requires
        queue.wf(),
    ensures
        queue.after(input).wf(),
        queue.after(input).inflight <= queue.after(input).inflight_limit,
        queue.after(input).inflight_limit == queue.inflight_limit,
{
    match input {
        QueueInput::Enqueue { item } => {
            lane_updates_keep_wf(queue.lanes, item);
        },
        QueueInput::NextReady { now } => {
            if let Some(i) = queue.pick(now) {
                best_lane_is_eligible(queue, now, queue.lanes.len() as int);
                let after = queue.after_next_ready(now).lanes;
                assert forall|a: int, k: int|
                    0 <= a < after.len() && 0 <= k < after[a].items.len() implies (
                #[trigger] after[a].items[k]).group == after[a].key by {
                    if a == i {
                        assert(after[a].items[k] == queue.lanes[a].items[k + 1]);
                    } else {
                        assert(after[a].items[k] == queue.lanes[a].items[k]);
                    }
                }
            }
        },
        QueueInput::Complete { item, ok, now } => {
            lane_updates_keep_wf(queue.lanes, item);
            let delayed = item.delayed(now, queue.retry.backoff_ms);
            lane_updates_keep_wf(lanes_released(queue.lanes, item.group), delayed);
        },
    }
}

/// No run of operations breaks what every queue keeps: at any moment at
/// most as many items are in flight as the cap allows.
pub proof fn queue_inputs_keep_wf<T>(queue: ExecutionQueueModel<T>, inputs: Seq<QueueInput<T>>)
    requires
        queue.wf(),
    ensures
        queue.after_all(inputs).wf(),
        queue.after_all(inputs).inflight <= queue.inflight_limit,
    decreases inputs.len(),
{
    if inputs.len() > 0 {
        queue_input_keeps_wf(queue, inputs[0]);
        queue_inputs_keep_wf(queue.after(inputs[0]), inputs.skip(1));
    }
}

/// While an item of a group is in flight, no second item of that group is
/// handed out: whatever is added, asked for or taken back for other groups
/// in between, the group hands out nothing until its item is taken back.
pub proof fn group_in_flight_hands_nothing_out<T>(
    queue: ExecutionQueueModel<T>,
    inputs: Seq<QueueInput<T>>,
    group: Seq<char>,
)
    requires
        queue.wf(),
        queue.group_in_flight(group),
        none_completes(inputs, group),
    ensures
        !queue.hands_out(inputs, group),
        queue.after_all(inputs).group_in_flight(group),
    decreases inputs.len(),
{
    if inputs.len() > 0 {
        let next = queue.after(inputs[0]);
        queue_input_keeps_wf(queue, inputs[0]);
        match inputs[0] {
            QueueInput::Enqueue { item } => {
                enqueue_appends_to_group(queue, item, group);
            },
            QueueInput::NextReady { now } => {
                next_ready_takes_oldest_of_free_group(queue, now, group);
            },
            QueueInput::Complete { item, ok, now } => {
                complete_releases_group(queue, item, ok, now, group);
            },
        }
        assert forall|i: int| 0 <= i < inputs.skip(1).len() implies match #[trigger] inputs.skip(
            1,
        )[i] {
            QueueInput::Complete { item, ok, now } => item.group != group,
            _ => true,
        } by {
            assert(inputs.skip(1)[i] == inputs[i + 1]);
        }
        group_in_flight_hands_nothing_out(next, inputs.skip(1), group);
    }
}

} // verus!
