use vstd::prelude::*;

verus! {

/// Last known state of a message that the client sent.
pub struct MessageSnapshot {
    pub message_id: u64,
    pub channel_id: u64,
    pub author_id: u64,
    pub content: String,
    /// Milliseconds since the Unix epoch.
    pub sent_at: i64,
}

pub struct SnapshotView {
    pub message_id: u64,
    pub channel_id: u64,
    pub author_id: u64,
    pub content: Seq<char>,
    pub sent_at: i64,
}

impl View for MessageSnapshot {
    type V = SnapshotView;

    open spec fn view(&self) -> SnapshotView {
        SnapshotView {
            message_id: self.message_id,
            channel_id: self.channel_id,
            author_id: self.author_id,
            content: self.content@,
            sent_at: self.sent_at,
        }
    }
}

/// The snapshot with its content replaced by an edit.
pub open spec fn with_content(s: SnapshotView, content: Seq<char>) -> SnapshotView {
    SnapshotView { content, ..s }
}

impl MessageSnapshot {
    pub fn duplicate(&self) -> (r: MessageSnapshot)
        ensures
            r@ == self@,
    {
        MessageSnapshot {
            message_id: self.message_id,
            channel_id: self.channel_id,
            author_id: self.author_id,
            content: self.content.clone(),
            sent_at: self.sent_at,
        }
    }
}

struct CacheEntry {
    key: u64,
    snapshot: MessageSnapshot,
}

/// Bounded map from a message id to the snapshot tracked for it. Entries are
/// kept in insertion order; when the cache is full, a new key evicts the
/// oldest entry.
pub struct MessageHistoryCache {
    entries: Vec<CacheEntry>,
    capacity: usize,
    contents: Ghost<Map<u64, SnapshotView>>,
}

impl View for MessageHistoryCache {
    type V = Map<u64, SnapshotView>;

    closed spec fn view(&self) -> Map<u64, SnapshotView> {
        self.contents@
    }
}

impl MessageHistoryCache {
    /// Keys from the oldest entry to the newest.
    pub closed spec fn keys(&self) -> Seq<u64> {
        self.entries@.map_values(|e: CacheEntry| e.key)
    }

    pub closed spec fn cap(&self) -> nat {
        self.capacity as nat
    }

    pub closed spec fn wf(&self) -> bool {
        &&& 0 < self.capacity
        &&& self.entries@.len() <= self.capacity
        &&& forall|i: int, j: int|
            0 <= i < j < self.entries@.len() ==> #[trigger] self.entries@[i].key
                != #[trigger] self.entries@[j].key
        &&& forall|i: int|
            0 <= i < self.entries@.len() ==> self.contents@.contains_key(
                #[trigger] self.entries@[i].key,
            ) && self.contents@[self.entries@[i].key] == self.entries@[i].snapshot@
        &&& forall|k: u64|
            #[trigger] self.contents@.contains_key(k) ==> exists|i: int|
                0 <= i < self.entries@.len() && #[trigger] self.entries@[i].key == k
    }

    proof fn lemma_keys(&self)
        requires
            self.wf(),
        ensures
            self.keys().len() == self.entries@.len(),
            forall|i: int| 0 <= i < self.entries@.len() ==> #[trigger] self.keys()[i] == self.entries@[i].key,
            self.keys().no_duplicates(),
            self@.dom() =~= self.keys().to_set(),
    {
        assert forall|k: u64| self@.dom().contains(k) <==> self.keys().to_set().contains(k) by {
            if self@.dom().contains(k) {
                let i = choose|i: int| 0 <= i < self.entries@.len() && #[trigger] self.entries@[i].key == k;
                assert(self.keys()[i] == k);
            }
            if self.keys().to_set().contains(k) {
                let i = choose|i: int| 0 <= i < self.keys().len() && self.keys()[i] == k;
                assert(self.entries@[i].key == k);
            }
        }
    }

    pub fn new(capacity: usize) -> (r: Self)
        requires
            capacity > 0,
        ensures
            r.wf(),
            r@ == Map::<u64, SnapshotView>::empty(),
            r.keys() == Seq::<u64>::empty(),
            r.cap() == capacity,
    {
        let r = MessageHistoryCache { entries: Vec::new(), capacity, contents: Ghost(Map::empty()) };
        assert(r.keys() =~= Seq::<u64>::empty());
        r
    }

    pub fn len(&self) -> (r: usize)
        requires
            self.wf(),
        ensures
            r == self.keys().len(),
            r == self@.dom().len(),
    {
        proof {
            self.lemma_keys();
            self.keys().unique_seq_to_set();
        }
        self.entries.len()
    }

    pub fn capacity(&self) -> (r: usize)
        ensures
            r == self.cap(),
    {
        self.capacity
    }

    fn find(&self, key: u64) -> (r: Option<usize>)
        requires
            self.wf(),
        ensures
            r is Some <==> self@.contains_key(key),
            r is Some ==> r->Some_0 < self.entries@.len() && self.entries@[r->Some_0 as int].key
                == key,
    {
        let mut i: usize = 0;
        while i < self.entries.len()
            invariant
                self.wf(),
                i <= self.entries@.len(),
                forall|j: int| 0 <= j < i ==> self.entries@[j].key != key,
            decreases self.entries@.len() - i,
        {
            if self.entries[i].key == key {
                assert(self.contents@.contains_key(self.entries@[i as int].key));
                return Some(i);
            }
            i = i + 1;
        }
        None
    }

    pub fn contains(&self, id: u64) -> (r: bool)
        requires
            self.wf(),
        ensures
            r == self@.contains_key(id),
    {
        self.find(id).is_some()
    }

    /// A copy of the snapshot tracked for `id`, if any.
    pub fn get(&self, id: u64) -> (r: Option<MessageSnapshot>)
        requires
            self.wf(),
        ensures
            r is Some <==> self@.contains_key(id),
            r is Some ==> r->Some_0@ == self@[id],
    {
        match self.find(id) {
            Some(i) => Some(self.entries[i].snapshot.duplicate()),
            None => None,
        }
    }

    /// Tracks `snapshot` under `id`. An existing entry for `id` is replaced in
    /// place; otherwise the entry is appended, after evicting the oldest one
    /// when the cache is full.
    pub fn put(&mut self, id: u64, snapshot: MessageSnapshot)
        requires
            old(self).wf(),
        ensures
            final(self).wf(),
            final(self).cap() == old(self).cap(),
            old(self)@.contains_key(id) ==> final(self)@ == old(self)@.insert(id, snapshot@)
                && final(self).keys() == old(self).keys(),
            !old(self)@.contains_key(id) && old(self).keys().len() < old(self).cap()
                ==> final(self)@ == old(self)@.insert(id, snapshot@)
                && final(self).keys() == old(self).keys().push(id),
            !old(self)@.contains_key(id) && old(self).keys().len() >= old(self).cap()
                ==> final(self)@ == old(self)@.remove(old(self).keys()[0]).insert(id, snapshot@)
                && final(self).keys() == old(self).keys().drop_first().push(id),
    {
        proof {
            self.lemma_keys();
        }
        let ghost snap = snapshot@;
        match self.find(id) {
            Some(i) => {
                let ghost before = self.entries@;
                self.entries.set(i, CacheEntry { key: id, snapshot });
                self.contents = Ghost(self.contents@.insert(id, snap));
                assert forall|k: u64| #[trigger] self.contents@.contains_key(k) implies exists|j: int|
                    0 <= j < self.entries@.len() && #[trigger] self.entries@[j].key == k by {
                    if k != id {
                        let j = choose|j: int| 0 <= j < before.len() && #[trigger] before[j].key == k;
                        assert(self.entries@[j].key == k);
                    } else {
                        assert(self.entries@[i as int].key == k);
                    }
                }
                assert(self.keys() =~= old(self).keys());
            },
            None => {
                if self.entries.len() >= self.capacity {
                    let ghost before = self.entries@;
                    let ghost oldest = before[0].key;
                    self.entries.remove(0);
                    self.contents = Ghost(self.contents@.remove(oldest));
                    assert forall|k: u64| #[trigger] self.contents@.contains_key(k) implies exists|j: int|
                        0 <= j < self.entries@.len() && #[trigger] self.entries@[j].key == k by {
                        let j = choose|j: int| 0 <= j < before.len() && #[trigger] before[j].key == k;
                        assert(j != 0);
                        assert(self.entries@[j - 1].key == k);
                    }
                    assert forall|i: int|
                        0 <= i < self.entries@.len() implies self.contents@.contains_key(
                        #[trigger] self.entries@[i].key,
                    ) && self.contents@[self.entries@[i].key] == self.entries@[i].snapshot@ by {
                        assert(self.entries@[i] == before[i + 1]);
                        assert(before[0].key != before[i + 1].key);
                    }
                    assert(self.keys() =~= old(self).keys().drop_first());
                }
                let ghost mid = self.entries@;
                let ghost mid_keys = self.keys();
                self.entries.push(CacheEntry { key: id, snapshot });
                self.contents = Ghost(self.contents@.insert(id, snap));
                assert forall|k: u64| #[trigger] self.contents@.contains_key(k) implies exists|j: int|
                    0 <= j < self.entries@.len() && #[trigger] self.entries@[j].key == k by {
                    if k != id {
                        let j = choose|j: int| 0 <= j < mid.len() && #[trigger] mid[j].key == k;
                        assert(self.entries@[j].key == k);
                    } else {
                        assert(self.entries@[mid.len() as int].key == k);
                    }
                }
                assert(self.keys() =~= mid_keys.push(id));
            },
        }
    }

    /// Replaces the content of the snapshot tracked for `id`. Returns false,
    /// and changes nothing, when `id` is not tracked.
    pub fn update_content(&mut self, id: u64, content: String) -> (r: bool)
        requires
            old(self).wf(),
        ensures
            final(self).wf(),
            final(self).cap() == old(self).cap(),
            final(self).keys() == old(self).keys(),
            r == old(self)@.contains_key(id),
            r ==> final(self)@ == old(self)@.insert(id, with_content(old(self)@[id], content@)),
            !r ==> final(self)@ == old(self)@,
    {
        match self.find(id) {
            Some(i) => {
                let ghost before = self.entries@;
                let old_snap = self.entries[i].snapshot.duplicate();
                let snapshot = MessageSnapshot { content, ..old_snap };
                let ghost snap = snapshot@;
                self.entries.set(i, CacheEntry { key: id, snapshot });
                self.contents = Ghost(self.contents@.insert(id, snap));
                assert forall|k: u64| #[trigger] self.contents@.contains_key(k) implies exists|j: int|
                    0 <= j < self.entries@.len() && #[trigger] self.entries@[j].key == k by {
                    if k != id {
                        let j = choose|j: int| 0 <= j < before.len() && #[trigger] before[j].key == k;
                        assert(self.entries@[j].key == k);
                    } else {
                        assert(self.entries@[i as int].key == k);
                    }
                }
                assert(self.keys() =~= old(self).keys());
                true
            },
            None => false,
        }
    }

    /// Stops tracking `id` and hands back the snapshot that was tracked.
    pub fn remove(&mut self, id: u64) -> (r: Option<MessageSnapshot>)
        requires
            old(self).wf(),
        ensures
            final(self).wf(),
            final(self).cap() == old(self).cap(),
            final(self)@ == old(self)@.remove(id),
            r is Some <==> old(self)@.contains_key(id),
            r is Some ==> r->Some_0@ == old(self)@[id],
    {
        match self.find(id) {
            Some(i) => {
                let ghost before = self.entries@;
                let e = self.entries.remove(i);
                self.contents = Ghost(self.contents@.remove(id));
                assert forall|k: u64| #[trigger] self.contents@.contains_key(k) implies exists|j: int|
                    0 <= j < self.entries@.len() && #[trigger] self.entries@[j].key == k by {
                    let j = choose|j: int| 0 <= j < before.len() && #[trigger] before[j].key == k;
                    assert(j != i);
                    if j < i {
                        assert(self.entries@[j].key == k);
                    } else {
                        assert(self.entries@[j - 1].key == k);
                    }
                }
                assert forall|x: int|
                    0 <= x < self.entries@.len() implies self.contents@.contains_key(
                    #[trigger] self.entries@[x].key,
                ) && self.contents@[self.entries@[x].key] == self.entries@[x].snapshot@ by {
                    if x < i {
                        assert(self.entries@[x] == before[x]);
                        assert(before[x].key != before[i as int].key);
                    } else {
                        assert(self.entries@[x] == before[x + 1]);
                        assert(before[x + 1].key != before[i as int].key);
                    }
                }
                Some(e.snapshot)
            },
            None => {
                assert(self.contents@ =~= self.contents@.remove(id));
                None
            },
        }
    }
}

/// A snapshot that was tracked and then edited reads back with the new
/// content, and with everything else as it was.
pub proof fn law_edit_is_visible(
    m: Map<u64, SnapshotView>,
    id: u64,
    s: SnapshotView,
    content: Seq<char>,
)
    requires
        m.contains_key(id),
        m[id] == s,
    ensures
        m.insert(id, with_content(m[id], content)).contains_key(id),
        m.insert(id, with_content(m[id], content))[id].content == content,
        m.insert(id, with_content(m[id], content))[id] == (SnapshotView { content, ..s }),
{
}

/// After a removal the id is no longer tracked.
pub proof fn law_removed_is_absent(m: Map<u64, SnapshotView>, id: u64)
    ensures
        m.remove(id).contains_key(id) == false,
{
}

} // verus!
