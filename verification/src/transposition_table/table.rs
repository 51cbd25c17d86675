use vstd::prelude::*;
use crate::transposition_table::entry::Entry;

verus! {

/// The number of slots in a bucket.
pub const BUCKET_SIZE: usize = 3;

/// The number of buckets of a table made by `TranspositionTable::new`.
pub const TABLE_SIZE: usize = 3_000_000;

/// Whether a slot holds a result for the position with the given hash.
pub open spec fn holds_hash(e: Entry, hash: u64) -> bool {
    match e {
        Entry::Contains { hash: h, .. } => h == hash,
        Entry::Empty => false,
    }
}

/// The age of a stored result; -1 for an empty slot.
pub open spec fn age_of(e: Entry) -> int {
    match e {
        Entry::Contains { age, .. } => age as int,
        Entry::Empty => -1,
    }
}

/// The first of the slots `start .. start + n` that holds a result for
/// `hash`; -1 where none does.
pub open spec fn found_slot(slots: Seq<Entry>, start: int, n: int, hash: u64) -> int
    decreases n,
{
    if n <= 0 {
        -1
    } else {
        let before = found_slot(slots, start, n - 1, hash);
        if before >= 0 {
            before
        } else if holds_hash(slots[start + n - 1], hash) {
            start + n - 1
        } else {
            -1
        }
    }
}

/// The last of the slots `start .. start + n` that is empty; -1 where none is.
pub open spec fn free_slot(slots: Seq<Entry>, start: int, n: int) -> int
    decreases n,
{
    if n <= 0 {
        -1
    } else if slots[start + n - 1] is Empty {
        start + n - 1
    } else {
        free_slot(slots, start, n - 1)
    }
}

/// The first of the slots `start .. start + n` whose result is as old as any
/// among them; -1 where all of them are empty.
pub open spec fn oldest_slot(slots: Seq<Entry>, start: int, n: int) -> int
    decreases n,
{
    if n <= 0 {
        -1
    } else {
        let before = oldest_slot(slots, start, n - 1);
        let last = slots[start + n - 1];
        if last is Contains && (before < 0 || age_of(last) > age_of(slots[before])) {
            start + n - 1
        } else {
            before
        }
    }
}

/// The number of buckets of a table with these slots.
pub open spec fn bucket_count(slots: Seq<Entry>) -> int {
    slots.len() as int / BUCKET_SIZE as int
}

/// The first slot of the bucket that `hash` selects.
pub open spec fn bucket_start(slots: Seq<Entry>, hash: u64) -> int {
    (hash as int % bucket_count(slots)) * BUCKET_SIZE as int
}

/// The slot that serves `hash`: in its bucket the slot that holds a result
/// for that hash; where there is none, an empty slot; where there is none
/// either, the slot with the oldest result.
pub open spec fn slot_for(slots: Seq<Entry>, hash: u64) -> int {
    let start = bucket_start(slots, hash);
    let found = found_slot(slots, start, BUCKET_SIZE as int, hash);
    let free = free_slot(slots, start, BUCKET_SIZE as int);
    let oldest = oldest_slot(slots, start, BUCKET_SIZE as int);
    if found >= 0 {
        found
    } else if free >= 0 {
        free
    } else if oldest >= 0 {
        oldest
    } else {
        start
    }
}

/// Whether the slots form a table: whole buckets, at least one; every
/// result in the bucket of its hash; in a bucket no two results for one hash.
pub open spec fn table_wf(slots: Seq<Entry>) -> bool {
    &&& slots.len() >= BUCKET_SIZE
    &&& slots.len() % BUCKET_SIZE as nat == 0
    &&& forall|i: int|
        0 <= i < slots.len() ==> match #[trigger] slots[i] {
            Entry::Contains { hash, .. } => bucket_start(slots, hash) <= i < bucket_start(
                slots,
                hash,
            ) + BUCKET_SIZE,
            Entry::Empty => true,
        }
    &&& forall|i: int, j: int|
        0 <= i < j < slots.len() && i / (BUCKET_SIZE as int) == j / (BUCKET_SIZE as int)
            ==> match (#[trigger] slots[i], #[trigger] slots[j]) {
            (Entry::Contains { hash: a, .. }, Entry::Contains { hash: b, .. }) => a != b,
            _ => true,
        }
}

/// Whether a slot holds a result for the hash from a search deeper than
/// `depth`.
pub open spec fn is_deeper(e: Entry, hash: u64, depth: u8) -> bool {
    match e {
        Entry::Contains { hash: held, depth: held_depth, .. } => held == hash && held_depth
            > depth,
        Entry::Empty => false,
    }
}

/// The table after a result was stored: the slot that serves the hash
/// holds the result with age 0, unless it held a result for the same hash
/// from a deeper search, which stays. No result is lost to a shallower one
/// for its hash.
pub open spec fn stored(
    slots: Seq<Entry>,
    hash: u64,
    depth: u8,
    score: i32,
    node_type: crate::search::NodeType,
) -> Seq<Entry> {
    if is_deeper(slots[slot_for(slots, hash)], hash, depth) {
        slots
    } else {
        slots.update(
            slot_for(slots, hash),
            Entry::Contains { hash, depth, score, node_type, age: 0 },
        )
    }
}

/// An entry one move older; the age stays at its greatest value.
pub open spec fn aged(e: Entry) -> Entry {
    match e {
        Entry::Contains { hash, depth, score, node_type, age } => Entry::Contains {
            hash,
            depth,
            score,
            node_type,
            age: if age < u8::MAX {
                (age + 1) as u8
            } else {
                age
            },
        },
        Entry::Empty => Entry::Empty,
    }
}

/// What `found_slot` finds: the first slot of the range with the hash.
pub proof fn lemma_found_slot(slots: Seq<Entry>, start: int, n: int, hash: u64)
    requires
        0 <= n,
        0 <= start,
    ensures
        ({
            let f = found_slot(slots, start, n, hash);
            if f >= 0 {
                start <= f < start + n && holds_hash(slots[f], hash) && forall|k: int|
                    start <= k < f ==> !holds_hash(slots[k], hash)
            } else {
                f == -1 && forall|k: int| start <= k < start + n ==> !holds_hash(slots[k], hash)
            }
        }),
    decreases n,
{
    if n > 0 {
        lemma_found_slot(slots, start, n - 1, hash);
    }
}

/// What `free_slot` finds: the last empty slot of the range.
pub proof fn lemma_free_slot(slots: Seq<Entry>, start: int, n: int)
    requires
        0 <= n,
        0 <= start,
    ensures
        ({
            let f = free_slot(slots, start, n);
            if f >= 0 {
                start <= f < start + n && slots[f] is Empty && forall|k: int|
                    f < k < start + n ==> !(slots[k] is Empty)
            } else {
                f == -1 && forall|k: int| start <= k < start + n ==> !(slots[k] is Empty)
            }
        }),
    decreases n,
{
    if n > 0 {
        lemma_free_slot(slots, start, n - 1);
    }
}

/// What `oldest_slot` finds: the first slot of the range that no stored
/// result of the range is older than.
pub proof fn lemma_oldest_slot(slots: Seq<Entry>, start: int, n: int)
    requires
        0 <= n,
        0 <= start,
    ensures
        ({
            let o = oldest_slot(slots, start, n);
            if o >= 0 {
                start <= o < start + n && slots[o] is Contains && (forall|k: int|
                    start <= k < start + n ==> age_of(slots[k]) <= age_of(slots[o])) && forall|
                    k: int,
                | start <= k < o ==> age_of(slots[k]) < age_of(slots[o])
            } else {
                o == -1 && forall|k: int| start <= k < start + n ==> slots[k] is Empty
            }
        }),
    decreases n,
{
    if n > 0 {
        lemma_oldest_slot(slots, start, n - 1);
    }
}

/// The slot that serves a hash lies in the hash's bucket.
pub proof fn lemma_slot_in_bucket(slots: Seq<Entry>, hash: u64)
    requires
        slots.len() >= BUCKET_SIZE,
        slots.len() % BUCKET_SIZE as nat == 0,
    ensures
        bucket_start(slots, hash) <= slot_for(slots, hash) < bucket_start(slots, hash)
            + BUCKET_SIZE,
        0 <= bucket_start(slots, hash),
        bucket_start(slots, hash) + BUCKET_SIZE <= slots.len(),
        bucket_start(slots, hash) % (BUCKET_SIZE as int) == 0,
{
    let start = bucket_start(slots, hash);
    let n = bucket_count(slots);
    assert(0 <= hash as int % n < n);
    lemma_found_slot(slots, start, BUCKET_SIZE as int, hash);
    lemma_free_slot(slots, start, BUCKET_SIZE as int);
    lemma_oldest_slot(slots, start, BUCKET_SIZE as int);
}

/// A cache of search results by position hash, in buckets of `BUCKET_SIZE`
/// slots. The bucket of a hash is the hash modulo the number of buckets.
pub struct TranspositionTable {
    slots: Vec<Entry>,
}

impl View for TranspositionTable {
    type V = Seq<Entry>;

    closed spec fn view(&self) -> Seq<Entry> {
        self.slots@
    }
}

impl TranspositionTable {
    /// Whether the table is well formed.
    pub open spec fn wf(&self) -> bool {
        table_wf(self@)
    }

    /// An empty table of `TABLE_SIZE` buckets.
    pub fn new() -> (r: TranspositionTable)
        ensures
            r.wf(),
            r@.len() == TABLE_SIZE * BUCKET_SIZE,
            forall|i: int| 0 <= i < r@.len() ==> r@[i] is Empty,
    {
        TranspositionTable::with_buckets(TABLE_SIZE)
    }

    /// An empty table of `buckets` buckets.
    pub fn with_buckets(buckets: usize) -> (r: TranspositionTable)
        requires
            0 < buckets <= usize::MAX / BUCKET_SIZE,
        ensures
            r.wf(),
            r@.len() == buckets * BUCKET_SIZE,
            forall|i: int| 0 <= i < r@.len() ==> r@[i] is Empty,
    {
        let mut slots: Vec<Entry> = Vec::new();
        let mut i: usize = 0;
        while i < buckets
            invariant
                i <= buckets <= usize::MAX / BUCKET_SIZE,
                slots@.len() == i * BUCKET_SIZE,
                forall|k: int| 0 <= k < slots@.len() ==> slots@[k] is Empty,
            decreases buckets - i,
        {
            slots.push(Entry::Empty);
            slots.push(Entry::Empty);
            slots.push(Entry::Empty);
            i += 1;
        }
        TranspositionTable { slots }
    }

    /// The number of slots.
    pub fn len(&self) -> (r: usize)
        ensures
            r == self@.len(),
    {
        self.slots.len()
    }

    /// The slot that serves `hash`: in the hash's bucket the slot that holds
    /// a result for it; where none does, the last empty slot; where none is
    /// empty, the first among the slots with the oldest results.
    pub fn get(&self, hash: u64) -> (r: usize)
        requires
            self.wf(),
        ensures
            r == slot_for(self@, hash),
            bucket_start(self@, hash) <= r < bucket_start(self@, hash) + BUCKET_SIZE,
            r < self@.len(),
            (exists|k: int|
                bucket_start(self@, hash) <= k < bucket_start(self@, hash) + BUCKET_SIZE
                    && holds_hash(self@[k], hash)) ==> holds_hash(self@[r as int], hash),
            (forall|k: int|
                bucket_start(self@, hash) <= k < bucket_start(self@, hash) + BUCKET_SIZE
                    ==> !holds_hash(self@[k], hash)) ==> {
                ||| self@[r as int] is Empty
                ||| forall|k: int|
                    bucket_start(self@, hash) <= k < bucket_start(self@, hash) + BUCKET_SIZE
                        ==> self@[k] is Contains && age_of(self@[k]) <= age_of(self@[r as int])
            },
    {
        let buckets = self.slots.len() / BUCKET_SIZE;
        let bucket = (hash % (buckets as u64)) as usize;
        assert(bucket == hash as int % bucket_count(self@));
        proof {
            lemma_slot_in_bucket(self@, hash);
        }
        let start: usize = bucket * BUCKET_SIZE;
        proof {
            lemma_found_slot(self@, start as int, BUCKET_SIZE as int, hash);
            lemma_free_slot(self@, start as int, BUCKET_SIZE as int);
            lemma_oldest_slot(self@, start as int, BUCKET_SIZE as int);
        }
        let mut found: Option<usize> = None;
        let mut free: Option<usize> = None;
        let mut oldest: Option<usize> = None;
        let mut max_age: u8 = 0;
        let mut index: usize = 0;
        while index < BUCKET_SIZE
            invariant
                index <= BUCKET_SIZE,
                start + BUCKET_SIZE <= self.slots@.len() <= usize::MAX,
                match found {
                    Some(f) => f == found_slot(self@, start as int, index as int, hash),
                    None => found_slot(self@, start as int, index as int, hash) == -1,
                },
                match free {
                    Some(f) => f == free_slot(self@, start as int, index as int),
                    None => free_slot(self@, start as int, index as int) == -1,
                },
                match oldest {
                    Some(o) => o == oldest_slot(self@, start as int, index as int) && start <= o
                        < start + index && max_age == age_of(self@[o as int]),
                    None => oldest_slot(self@, start as int, index as int) == -1,
                },
            decreases BUCKET_SIZE - index,
        {
            match self.slots[start + index] {
                Entry::Contains { hash: stored, age, .. } => {
                    if found.is_none() && stored == hash {
                        found = Some(start + index);
                    }
                    if oldest.is_none() || max_age < age {
                        oldest = Some(start + index);
                        max_age = age;
                    }
                },
                Entry::Empty => {
                    free = Some(start + index);
                },
            }
            index += 1;
        }
        if let Some(slot) = found {
            return slot;
        }
        if let Some(slot) = free {
            return slot;
        }
        match oldest {
            Some(slot) => slot,
            None => start,
        }
    }

    /// What a slot holds.
    pub fn entry(&self, slot: usize) -> (r: Entry)
        requires
            slot < self@.len(),
        ensures
            r == self@[slot as int],
    {
        self.slots[slot]
    }

    /// Stores a result in the slot that serves its hash, with age 0. A
    /// result for the same hash from a deeper search is not given up for it:
    /// the table then stays as it is.
    pub fn store(&mut self, hash: u64, depth: u8, score: i32, node_type: crate::search::NodeType)
        requires
            old(self).wf(),
        ensures
            final(self).wf(),
            final(self)@ == stored(old(self)@, hash, depth, score, node_type),
            slot_for(final(self)@, hash) == slot_for(old(self)@, hash),
    {
        let slot = self.get(hash);
        let entry = Entry::Contains { hash, depth, score, node_type, age: 0 };
        proof {
            lemma_slot_in_bucket(self@, hash);
            lemma_found_slot(self@, bucket_start(self@, hash), BUCKET_SIZE as int, hash);
            lemma_store_keeps_table(self@, hash, entry);
        }
        let deeper = match self.slots[slot] {
            Entry::Contains { hash: held, depth: held_depth, .. } => held == hash && held_depth
                > depth,
            Entry::Empty => false,
        };
        if !deeper {
            self.slots[slot] = entry;
        }
    }

    /// Makes every stored result one move older.
    pub fn age_table(&mut self)
        requires
            old(self).wf(),
        ensures
            final(self).wf(),
            final(self)@.len() == old(self)@.len(),
            forall|i: int| 0 <= i < old(self)@.len() ==> final(self)@[i] == aged(old(self)@[i]),
    {
        let n = self.slots.len();
        let mut i: usize = 0;
        while i < n
            invariant
                i <= n,
                n == self.slots@.len(),
                self.slots@.len() == old(self).slots@.len(),
                forall|k: int| 0 <= k < i ==> self.slots@[k] == aged(old(self).slots@[k]),
                forall|k: int| i <= k < n ==> self.slots@[k] == old(self).slots@[k],
            decreases n - i,
        {
            match self.slots[i] {
                Entry::Contains { hash, depth, score, age, node_type } => {
                    let older = if age < u8::MAX {
                        age + 1
                    } else {
                        age
                    };
                    self.slots[i] = Entry::Contains { hash, depth, score, age: older, node_type };
                },
                Entry::Empty => {},
            }
            i += 1;
        }
        proof {
            lemma_aging_keeps_table(old(self)@, self@);
        }
    }
}

/// Storing a result in the slot that serves its hash keeps the table well
/// formed, and the slot goes on serving that hash.
pub proof fn lemma_store_keeps_table(slots: Seq<Entry>, hash: u64, entry: Entry)
    requires
        table_wf(slots),
        holds_hash(entry, hash),
    ensures
        table_wf(slots.update(slot_for(slots, hash), entry)),
        slot_for(slots.update(slot_for(slots, hash), entry), hash) == slot_for(slots, hash),
{
    let slot = slot_for(slots, hash);
    let after = slots.update(slot, entry);
    let start = bucket_start(slots, hash);
    lemma_slot_in_bucket(slots, hash);
    lemma_found_slot(slots, start, BUCKET_SIZE as int, hash);
    assert(bucket_count(after) == bucket_count(slots));
    assert forall|h: u64| bucket_start(after, h) == bucket_start(slots, h) by {}
    assert forall|i: int| 0 <= i < after.len() implies match #[trigger] after[i] {
        Entry::Contains { hash, .. } => bucket_start(after, hash) <= i < bucket_start(after, hash)
            + BUCKET_SIZE,
        Entry::Empty => true,
    } by {
        if i != slot {
            assert(after[i] == slots[i]);
        }
    }
    assert forall|i: int, j: int|
        0 <= i < j < after.len() && i / (BUCKET_SIZE as int) == j / (BUCKET_SIZE as int)
        implies match (#[trigger] after[i], #[trigger] after[j]) {
        (Entry::Contains { hash: a, .. }, Entry::Contains { hash: b, .. }) => a != b,
        _ => true,
    } by {
        assert(after[i] == if i == slot {
            entry
        } else {
            slots[i]
        });
        assert(after[j] == if j == slot {
            entry
        } else {
            slots[j]
        });
        if i == slot || j == slot {
            let other = if i == slot {
                j
            } else {
                i
            };
            assert(start <= other < start + BUCKET_SIZE);
            if holds_hash(slots[other], hash) {
                // the slot that serves the hash is the one that holds it
                assert(found_slot(slots, start, BUCKET_SIZE as int, hash) >= 0);
                assert(holds_hash(slots[slot], hash));
                assert(slots[i] is Contains && slots[j] is Contains);
            }
        }
    }
    lemma_found_slot(after, start, BUCKET_SIZE as int, hash);
    let found = found_slot(after, start, BUCKET_SIZE as int, hash);
    assert(holds_hash(after[slot], hash));
    if found != slot {
        assert(found >= 0);
        assert(holds_hash(after[found], hash));
        if found < slot {
            assert(after[found] is Contains && after[slot] is Contains);
        }
    }
}

/// Making every result older keeps the table well formed.
pub proof fn lemma_aging_keeps_table(before: Seq<Entry>, after: Seq<Entry>)
    requires
        table_wf(before),
        after.len() == before.len(),
        forall|i: int| 0 <= i < before.len() ==> after[i] == aged(before[i]),
    ensures
        table_wf(after),
{
    assert(bucket_count(after) == bucket_count(before));
    assert forall|i: int| 0 <= i < after.len() implies match #[trigger] after[i] {
        Entry::Contains { hash, .. } => bucket_start(after, hash) <= i < bucket_start(after, hash)
            + BUCKET_SIZE,
        Entry::Empty => true,
    } by {
        assert(after[i] == aged(before[i]));
    }
    assert forall|i: int, j: int|
        0 <= i < j < after.len() && i / (BUCKET_SIZE as int) == j / (BUCKET_SIZE as int)
        implies match (#[trigger] after[i], #[trigger] after[j]) {
        (Entry::Contains { hash: a, .. }, Entry::Contains { hash: b, .. }) => a != b,
        _ => true,
    } by {
        assert(after[i] == aged(before[i]));
        assert(after[j] == aged(before[j]));
    }
}

} // verus!
