use vstd::prelude::*;

use crate::chunks::first_index_from;
use crate::msg::MsgViewData;

verus! {

/// Number of youngest messages that stay visible once older ones are hidden.
pub const VISIBLE_MSGS: u16 = 20;

/// Drift of the hide point, in messages, below which it is not recomputed.
pub const RELOAD_DRIFT: i32 = 5;

#[verifier::external_type_specification]
#[verifier::external_body]
#[verifier::reject_recursive_types(A)]
pub struct ExVector<A>(im::Vector<A>);

/// The messages an `im::Vector` holds, front first.
pub uninterp spec fn vector_items(v: im::Vector<MsgViewData>) -> Seq<MsgViewData>;

/// Relies on `im::Vector::new`: an empty vector.
#[verifier::external_body]
fn vector_new() -> (r: im::Vector<MsgViewData>)
    ensures
        vector_items(r) == Seq::<MsgViewData>::empty(),
{
    im::Vector::new()
}

/// Relies on `im::Vector::len`: the number of elements.
#[verifier::external_body]
fn vector_len(v: &im::Vector<MsgViewData>) -> (r: usize)
    ensures
        r == vector_items(*v).len(),
{
    v.len()
}

/// Relies on `im::Vector::get`: the element at `index`, `None` past the end.
#[verifier::external_body]
fn vector_get(v: &im::Vector<MsgViewData>, index: usize) -> (r: Option<&MsgViewData>)
    ensures
        match r {
            Some(m) => index < vector_items(*v).len() && *m == vector_items(*v)[index as int],
            None => index >= vector_items(*v).len(),
        },
{
    v.get(index)
}

/// Relies on `im::Vector::set`: replaces the element at `index` and returns
/// the previous one; panics past the end.
#[verifier::external_body]
fn vector_set(v: &mut im::Vector<MsgViewData>, index: usize, value: MsgViewData) -> (r: MsgViewData)
    requires
        index < vector_items(*old(v)).len(),
    ensures
        r == vector_items(*old(v))[index as int],
        vector_items(*final(v)) == vector_items(*old(v)).update(index as int, value),
{
    v.set(index, value)
}

/// Relies on `im::Vector::push_back`: adds `value` at the back.
#[verifier::external_body]
fn vector_push_back(v: &mut im::Vector<MsgViewData>, value: MsgViewData)
    ensures
        vector_items(*final(v)) == vector_items(*old(v)).push(value),
{
    v.push_back(value)
}

/// Relies on `im::Vector::push_front`: adds `value` at the front.
#[verifier::external_body]
fn vector_push_front(v: &mut im::Vector<MsgViewData>, value: MsgViewData)
    ensures
        vector_items(*final(v)) == seq![value] + vector_items(*old(v)),
{
    v.push_front(value)
}

/// Relies on `im::Vector::remove`: takes out the element at `index`,
/// shifting the ones after it; panics past the end.
#[verifier::external_body]
fn vector_remove(v: &mut im::Vector<MsgViewData>, index: usize) -> (r: MsgViewData)
    requires
        index < vector_items(*old(v)).len(),
    ensures
        r == vector_items(*old(v))[index as int],
        vector_items(*final(v)) == vector_items(*old(v)).remove(index as int),
{
    v.remove(index)
}

/// Relies on `im::Vector::append`: `other` is moved after the elements of `v`.
#[verifier::external_body]
fn vector_append(v: &mut im::Vector<MsgViewData>, other: im::Vector<MsgViewData>)
    ensures
        vector_items(*final(v)) == vector_items(*old(v)) + vector_items(other),
{
    v.append(other)
}

/// Relies on `im::Vector::clone`: a vector with the same elements, shared
/// with `v` until either is changed.
#[verifier::external_body]
fn vector_clone(v: &im::Vector<MsgViewData>) -> (r: im::Vector<MsgViewData>)
    ensures
        vector_items(r) == vector_items(*v),
{
    v.clone()
}

/// Relies on `im::Vector::index_of`: the index of the first element equal to
/// `value`, where messages are equal when their keys are.
#[verifier::external_body]
fn vector_index_of(v: &im::Vector<MsgViewData>, value: &MsgViewData) -> (r: Option<usize>)
    ensures
        match r {
            Some(i) => first_index_from(vector_items(*v), value.key(), 0) == Some(i as int),
            None => first_index_from(vector_items(*v), value.key(), 0) is None,
        },
{
    v.index_of(value)
}

/// Whether older messages are hidden from display.
#[derive(Clone, Copy, Debug, PartialEq, Eq, Structural)]
pub enum DisplayStatus {
    AllVisible,
    /// Messages before this index, whose message has this key, are hidden.
    PartiallyHidden(u16, u128),
}

/// Index of the oldest visible message under `status`.
pub open spec fn visible_start(status: DisplayStatus) -> int {
    match status {
        DisplayStatus::AllVisible => 0,
        DisplayStatus::PartiallyHidden(idx, _) => idx as int,
    }
}

/// Hide everything before the [`VISIBLE_MSGS`] youngest of `items`.
pub open spec fn hide_point(items: Seq<MsgViewData>) -> DisplayStatus {
    let idx = items.len() - VISIBLE_MSGS;
    DisplayStatus::PartiallyHidden(idx as u16, items[idx].key())
}

/// New status and whether to reload, for `items` displayed under `status`:
/// below [`VISIBLE_MSGS`] messages everything is visible; otherwise the hide
/// point is set, unless one is set already that drifted less than
/// [`RELOAD_DRIFT`] messages from where it belongs.
pub open spec fn reload_outcome(status: DisplayStatus, items: Seq<MsgViewData>) -> (DisplayStatus, bool) {
    if items.len() < VISIBLE_MSGS {
        (DisplayStatus::AllVisible, false)
    } else {
        match status {
            DisplayStatus::AllVisible => (hide_point(items), true),
            DisplayStatus::PartiallyHidden(idx, _) => {
                let drift = items.len() - VISIBLE_MSGS - idx;
                if -RELOAD_DRIFT < drift < RELOAD_DRIFT {
                    (status, false)
                } else {
                    (hide_point(items), true)
                }
            },
        }
    }
}

/// Evaluating the reload policy a second time, with nothing changed in
/// between, never asks for another reload.
pub proof fn lemma_reload_settles(status: DisplayStatus, items: Seq<MsgViewData>)
    requires
        items.len() <= u16::MAX,
    ensures
        reload_outcome(reload_outcome(status, items).0, items).1 == false,
{
}

/// Once a reload is asked for, the visible messages start exactly
/// [`VISIBLE_MSGS`] messages before the end.
pub proof fn lemma_reload_window(status: DisplayStatus, items: Seq<MsgViewData>)
    requires
        items.len() <= u16::MAX,
        reload_outcome(status, items).1,
    ensures
        items.len() >= VISIBLE_MSGS,
        visible_start(reload_outcome(status, items).0) == items.len() - VISIBLE_MSGS,
{
}

/// A room's materialized messages in one flat sequence, oldest first, with
/// markers on both ends and a policy hiding older messages.
pub struct DisplayChunks {
    /// Number of stored messages.
    pub total_stored: u16,
    /// Storage, oldest first.
    pub vec: im::Vector<MsgViewData>,
    /// Index and key of the oldest stored message.
    pub start: (u16, u128),
    /// Index and key of the youngest stored message.
    pub last: (u16, u128),
    /// Whether older messages are hidden.
    pub status: DisplayStatus,
}

impl DisplayChunks {
    /// The stored messages, oldest first.
    pub open spec fn items(&self) -> Seq<MsgViewData> {
        vector_items(self.vec)
    }

    /// The markers for `items`: both nil when empty, else the index and key
    /// of the oldest and of the youngest message.
    pub open spec fn markers_of(items: Seq<MsgViewData>) -> ((u16, u128), (u16, u128)) {
        if items.len() == 0 {
            ((0, 0), (0, 0))
        } else {
            ((0, items[0].key()), ((items.len() - 1) as u16, items.last().key()))
        }
    }

    /// The count and the markers agree with the stored messages.
    pub open spec fn wf(&self) -> bool {
        &&& self.total_stored as int == self.items().len()
        &&& (self.start, self.last) == Self::markers_of(self.items())
    }

    fn set_markers(&mut self)
        requires
            vector_items(old(self).vec).len() <= u16::MAX,
        ensures
            final(self).vec == old(self).vec,
            final(self).status == old(self).status,
            final(self).total_stored == old(self).total_stored,
            (final(self).start, final(self).last) == Self::markers_of(final(self).items()),
    {
        let n = vector_len(&self.vec);
        if n == 0 {
            self.start = (0, 0);
            self.last = (0, 0);
        } else {
            let first = match vector_get(&self.vec, 0) {
                Some(m) => m.id.id,
                None => 0,
            };
            let youngest = match vector_get(&self.vec, n - 1) {
                Some(m) => m.id.id,
                None => 0,
            };
            self.start = (0, first);
            self.last = ((n - 1) as u16, youngest);
        }
    }

    /// An empty window with everything visible.
    pub fn new() -> (r: Self)
        ensures
            r.wf(),
            r.items().len() == 0,
            r.status == DisplayStatus::AllVisible,
    {
        DisplayChunks {
            total_stored: 0,
            vec: vector_new(),
            start: (0, 0),
            last: (0, 0),
            status: DisplayStatus::AllVisible,
        }
    }

    /// Adds `new` after the stored messages.
    pub fn append_new(&mut self, new: MsgViewData)
        requires
            old(self).wf(),
            old(self).total_stored < u16::MAX,
        ensures
            final(self).wf(),
            final(self).items() == old(self).items().push(new),
            final(self).status == old(self).status,
    {
        vector_push_back(&mut self.vec, new);
        self.total_stored = self.total_stored + 1;
        self.set_markers();
    }

    /// Adds copies of `many` after the stored messages.
    pub fn append_many(&mut self, many: &[MsgViewData])
        requires
            old(self).wf(),
            old(self).total_stored + many@.len() <= u16::MAX,
        ensures
            final(self).wf(),
            final(self).items() == old(self).items() + many@,
            final(self).status == old(self).status,
    {
        if many.len() == 0 {
            assert(old(self).items() + many@ =~= old(self).items());
            return;
        }
        let batch = vector_from(many);
        vector_append(&mut self.vec, batch);
        self.total_stored = self.total_stored + many.len() as u16;
        self.set_markers();
    }

    /// Index of the first stored message with key `key`.
    fn position_of(&self, key: u128) -> (r: Option<usize>)
        requires
            self.wf(),
        ensures
            match r {
                Some(i) => first_index_from(self.items(), key, 0) == Some(i as int),
                None => first_index_from(self.items(), key, 0) is None,
            },
    {
        let n = vector_len(&self.vec);
        let mut i: usize = 0;
        while i < n
            invariant
                n == self.items().len(),
                0 <= i <= n,
                first_index_from(self.items(), key, 0) == first_index_from(self.items(), key, i as int),
            decreases n - i,
        {
            match vector_get(&self.vec, i) {
                Some(m) => {
                    if m.id.id == key {
                        return Some(i);
                    }
                },
                None => {},
            }
            i = i + 1;
        }
        None
    }

    /// Replaces the stored message with the key of `edited`: the oldest or
    /// the youngest when it has that key, else the first one that has it.
    /// Nothing changes when no stored message has it.
    pub fn msg_edited(&mut self, edited: MsgViewData)
        requires
            old(self).wf(),
        ensures
            final(self).wf(),
            final(self).status == old(self).status,
            ({
                let items = old(self).items();
                let key = edited.key();
                if items.len() > 0 && items[0].key() == key {
                    final(self).items() == items.update(0, edited)
                } else if items.len() > 0 && items.last().key() == key {
                    final(self).items() == items.update(items.len() - 1, edited)
                } else {
                    match first_index_from(items, key, 0) {
                        Some(i) => final(self).items() == items.update(i, edited),
                        None => final(self).items() == items,
                    }
                }
            }),
    {
        let key = edited.id.id;
        let n = vector_len(&self.vec);
        let target = if n > 0 && self.start.1 == key {
            Some(0)
        } else if n > 0 && self.last.1 == key {
            Some(n - 1)
        } else {
            self.position_of(key)
        };
        match target {
            Some(i) => {
                proof {
                    crate::chunks::lemma_first_index_bounds(self.items(), key, 0);
                }
                let _previous = vector_set(&mut self.vec, i, edited);
                self.set_markers();
            },
            None => {},
        }
    }

    /// Removes the first stored message with key `del`; nothing changes when
    /// no stored message has it.
    pub fn msg_removed(&mut self, del: u128)
        requires
            old(self).wf(),
        ensures
            final(self).wf(),
            final(self).status == old(self).status,
            match first_index_from(old(self).items(), del, 0) {
                Some(i) => final(self).items() == old(self).items().remove(i),
                None => final(self).items() == old(self).items(),
            },
    {
        match self.position_of(del) {
            Some(i) => {
                proof {
                    crate::chunks::lemma_first_index_bounds(self.items(), del, 0);
                }
                let removed = vector_remove(&mut self.vec, i);
                assert(removed.key() == del);
                self.total_stored = self.total_stored - 1;
                self.set_markers();
            },
            None => {},
        }
    }

    /// Applies the visibility policy of [`reload_outcome`] and tells whether
    /// the displayed messages must be reloaded.
    pub fn check_need_for_reload(&mut self) -> (r: bool)
        requires
            old(self).wf(),
        ensures
            final(self).wf(),
            final(self).vec == old(self).vec,
            final(self).start == old(self).start,
            final(self).last == old(self).last,
            (final(self).status, r) == reload_outcome(old(self).status, old(self).items()),
    {
        let total = self.total_stored;
        if total < VISIBLE_MSGS {
            self.status = DisplayStatus::AllVisible;
            return false;
        }
        let idx = total - VISIBLE_MSGS;
        let reload = match self.status {
            DisplayStatus::AllVisible => true,
            DisplayStatus::PartiallyHidden(prev, _) => {
                let drift = idx as i32 - prev as i32;
                !(-RELOAD_DRIFT < drift && drift < RELOAD_DRIFT)
            },
        };
        if !reload {
            return false;
        }
        match vector_get(&self.vec, idx as usize) {
            Some(hidden) => {
                self.status = DisplayStatus::PartiallyHidden(idx, hidden.id.id);
                true
            },
            None => false,
        }
    }

    /// Adds copies of `chunk` before the stored messages, keeping its order.
    pub fn append_older_chunk(&mut self, chunk: &[MsgViewData])
        requires
            old(self).wf(),
            old(self).total_stored + chunk@.len() <= u16::MAX,
        ensures
            final(self).wf(),
            final(self).items() == chunk@ + old(self).items(),
            final(self).status == old(self).status,
    {
        let n = chunk.len();
        let mut i = n;
        while i > 0
            invariant
                i <= n == chunk@.len(),
                vector_items(old(self).vec).len() + n <= u16::MAX,
                self.status == old(self).status,
                self.total_stored == old(self).total_stored,
                self.items() == chunk@.subrange(i as int, n as int) + old(self).items(),
            decreases i,
        {
            i = i - 1;
            vector_push_front(&mut self.vec, chunk[i].clone());
            assert(chunk@.subrange(i as int, n as int) =~= seq![chunk@[i as int]] + chunk@.subrange(
                i + 1,
                n as int,
            ));
        }
        assert(chunk@.subrange(0, n as int) =~= chunk@);
        self.total_stored = self.total_stored + n as u16;
        self.set_markers();
    }

    /// Same as [`DisplayChunks::append_older_chunk`], building the new front
    /// first and appending the stored messages to it.
    pub fn append_older_chunk_alt(&mut self, chunk: &[MsgViewData])
        requires
            old(self).wf(),
            old(self).total_stored + chunk@.len() <= u16::MAX,
        ensures
            final(self).wf(),
            final(self).items() == chunk@ + old(self).items(),
            final(self).status == old(self).status,
    {
        let mut front = vector_from(chunk);
        let stored = vector_clone(&self.vec);
        vector_append(&mut front, stored);
        self.vec = front;
        self.total_stored = self.total_stored + chunk.len() as u16;
        self.set_markers();
    }

    /// Key of the youngest stored message, unless none is stored or it is
    /// the nil key.
    pub fn get_last_msg(&self) -> (r: Option<u128>)
        ensures
            r == if self.total_stored == 0 || self.last.1 == 0 {
                None
            } else {
                Some(self.last.1)
            },
    {
        if self.total_stored == 0 {
            return None;
        }
        if self.last.1 == 0 {
            return None;
        }
        Some(self.last.1)
    }

    /// Index of the first stored message with the key of `msg`; 0 when
    /// there is none.
    pub fn extract_idx(&self, msg: &MsgViewData) -> (r: usize)
        ensures
            r == match first_index_from(self.items(), msg.key(), 0) {
                Some(i) => i,
                None => 0,
            },
    {
        match vector_index_of(&self.vec, msg) {
            Some(i) => i,
            None => 0,
        }
    }

    /// Indices of the visible messages: all stored ones, or those from the
    /// hide point on.
    pub fn get_visible_indicies(&self) -> (r: Vec<usize>)
        ensures
            r@.len() == if visible_start(self.status) <= self.total_stored {
                self.total_stored - visible_start(self.status)
            } else {
                0
            },
            forall|k: int| 0 <= k < r@.len() ==> r@[k] == visible_start(self.status) + k,
    {
        let from: u16 = match self.status {
            DisplayStatus::AllVisible => 0,
            DisplayStatus::PartiallyHidden(idx, _) => idx,
        };
        let mut r: Vec<usize> = Vec::new();
        let mut i = from;
        while i < self.total_stored
            invariant
                from == visible_start(self.status),
                from <= i,
                i <= self.total_stored || i == from,
                r@.len() == i - from,
                forall|k: int| 0 <= k < r@.len() ==> r@[k] == from + k,
            decreases self.total_stored - i,
        {
            r.push(i as usize);
            i = i + 1;
        }
        r
    }

    /// The visible messages, oldest first: all stored ones, or those from
    /// the hide point on.
    pub fn into_visible_msgs(self) -> (r: Vec<MsgViewData>)
        requires
            self.wf(),
        ensures
            r@ == self.items().subrange(
                if visible_start(self.status) <= self.items().len() {
                    visible_start(self.status)
                } else {
                    self.items().len() as int
                },
                self.items().len() as int,
            ),
    {
        let n = vector_len(&self.vec);
        let from: usize = match self.status {
            DisplayStatus::AllVisible => 0,
            DisplayStatus::PartiallyHidden(idx, _) => if (idx as usize) <= n {
                idx as usize
            } else {
                n
            },
        };
        let mut r: Vec<MsgViewData> = Vec::new();
        let mut i = from;
        while i < n
            invariant
                n == self.items().len(),
                from <= i <= n,
                r@ == self.items().subrange(from as int, i as int),
            decreases n - i,
        {
            match vector_get(&self.vec, i) {
                Some(m) => {
                    r.push(m.clone());
                },
                None => {},
            }
            assert(self.items().subrange(from as int, i + 1) =~= self.items().subrange(
                from as int,
                i as int,
            ).push(self.items()[i as int]));
            i = i + 1;
        }
        r
    }
}

/// A vector holding copies of `msgs`.
fn vector_from(msgs: &[MsgViewData]) -> (r: im::Vector<MsgViewData>)
    ensures
        vector_items(r) == msgs@,
{
    let mut v = vector_new();
    let mut i: usize = 0;
    while i < msgs.len()
        invariant
            0 <= i <= msgs@.len(),
            vector_items(v) == msgs@.subrange(0, i as int),
        decreases msgs@.len() - i,
    {
        vector_push_back(&mut v, msgs[i].clone());
        assert(msgs@.subrange(0, i + 1) =~= msgs@.subrange(0, i as int).push(msgs@[i as int]));
        i = i + 1;
    }
    assert(msgs@.subrange(0, msgs@.len() as int) =~= msgs@);
    v
}

} // verus!
