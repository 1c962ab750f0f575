//! A table keyed by bus id, in which each bus id occurs at most once.
use vstd::prelude::*;
use crate::wire::bytes_eq;

verus! {

/// One row: a bus id and what is recorded for it.
pub struct BusidEntry<V> {
    pub busid: Vec<u8>,
    pub value: V,
}

/// Rows keyed by bus id; no bus id occurs twice.
pub struct BusidTable<V> {
    rows: Vec<BusidEntry<V>>,
}

/// The map that a sequence of rows stands for (a later row wins).
pub open spec fn rows_map<V>(rows: Seq<BusidEntry<V>>) -> Map<Seq<u8>, V>
    decreases rows.len(),
{
    if rows.len() == 0 {
        Map::empty()
    } else {
        rows_map(rows.drop_last()).insert(rows.last().busid@, rows.last().value)
    }
}

/// No two rows share a bus id.
pub open spec fn keys_unique<V>(rows: Seq<BusidEntry<V>>) -> bool {
    forall|i: int, j: int|
        0 <= i < rows.len() && 0 <= j < rows.len() && i != j ==> #[trigger] rows[i].busid@
            != #[trigger] rows[j].busid@
}

proof fn lemma_rows_map_lookup<V>(rows: Seq<BusidEntry<V>>)
    requires
        keys_unique(rows),
    ensures
        forall|k: Seq<u8>|
            #[trigger] rows_map(rows).dom().contains(k) <==> exists|i: int|
                0 <= i < rows.len() && rows[i].busid@ == k,
        forall|i: int|
            0 <= i < rows.len() ==> #[trigger] rows_map(rows)[rows[i].busid@] == rows[i].value,
    decreases rows.len(),
{
    if rows.len() > 0 {
        let init = rows.drop_last();
        assert(keys_unique(init));
        lemma_rows_map_lookup(init);
        assert forall|k: Seq<u8>| #[trigger]
            rows_map(rows).dom().contains(k) implies exists|i: int|
            0 <= i < rows.len() && rows[i].busid@ == k by {
            if k != rows.last().busid@ {
                assert(rows_map(init).dom().contains(k));
                let i = choose|i: int| 0 <= i < init.len() && init[i].busid@ == k;
                assert(rows[i] == init[i]);
            } else {
                assert(rows[rows.len() - 1].busid@ == k);
            }
        }
        assert forall|i: int| 0 <= i < rows.len() implies #[trigger] rows_map(
            rows,
        )[rows[i].busid@] == rows[i].value by {
            if i < rows.len() - 1 {
                assert(rows[i] == init[i]);
                assert(rows[i].busid@ != rows[rows.len() - 1].busid@);
                assert(rows_map(init)[init[i].busid@] == init[i].value);
            }
        }
        assert forall|k: Seq<u8>|
            (exists|i: int| 0 <= i < rows.len() && rows[i].busid@ == k) implies #[trigger] rows_map(
            rows,
        ).dom().contains(k) by {
            let i = choose|i: int| 0 <= i < rows.len() && rows[i].busid@ == k;
            if i < rows.len() - 1 {
                assert(rows[i] == init[i]);
                assert(rows_map(init).dom().contains(k));
            }
        }
    }
}

proof fn lemma_rows_map_ext<V>(a: Seq<BusidEntry<V>>, b: Seq<BusidEntry<V>>, m: Map<Seq<u8>, V>)
    requires
        keys_unique(a),
        keys_unique(b),
        a.len() == b.len(),
        forall|i: int| 0 <= i < a.len() ==> #[trigger] b[i].busid@ == a[i].busid@,
        rows_map(a) == m,
    ensures
        forall|k: Seq<u8>| #[trigger] rows_map(b).dom().contains(k) <==> m.dom().contains(k),
{
    lemma_rows_map_lookup(a);
    lemma_rows_map_lookup(b);
    assert forall|k: Seq<u8>| #[trigger] rows_map(b).dom().contains(k) implies m.dom().contains(
        k,
    ) by {
        let i = choose|i: int| 0 <= i < b.len() && b[i].busid@ == k;
        assert(a[i].busid@ == k);
    }
    assert forall|k: Seq<u8>| m.dom().contains(k) implies #[trigger] rows_map(b).dom().contains(
        k,
    ) by {
        let i = choose|i: int| 0 <= i < a.len() && a[i].busid@ == k;
        assert(b[i].busid@ == k);
    }
}

impl<V> BusidTable<V> {
    pub closed spec fn view(&self) -> Map<Seq<u8>, V> {
        rows_map(self.rows@)
    }

    pub closed spec fn wf(&self) -> bool {
        keys_unique(self.rows@)
    }

    pub fn new() -> (t: Self)
        ensures
            t.wf(),
            t.view() == Map::<Seq<u8>, V>::empty(),
    {
        BusidTable { rows: Vec::new() }
    }

    fn position(&self, busid: &[u8]) -> (r: Option<usize>)
        requires
            self.wf(),
        ensures
            r is None <==> !self.view().dom().contains(busid@),
            r matches Some(i) ==> i < self.rows@.len() && self.rows@[i as int].busid@ == busid@,
    {
        proof {
            lemma_rows_map_lookup(self.rows@);
        }
        let mut i: usize = 0;
        while i < self.rows.len()
            invariant
                i <= self.rows@.len(),
                keys_unique(self.rows@),
                forall|j: int| 0 <= j < i ==> self.rows@[j].busid@ != busid@,
            decreases self.rows.len() - i,
        {
            if bytes_eq(self.rows[i].busid.as_slice(), busid) {
                proof {
                    lemma_rows_map_lookup(self.rows@);
                    assert(self.view().dom().contains(self.rows@[i as int].busid@));
                }
                return Some(i);
            }
            i = i + 1;
        }
        proof {
            lemma_rows_map_lookup(self.rows@);
        }
        None
    }

    /// Whether the bus id has a row.
    pub fn contains_key(&self, busid: &[u8]) -> (r: bool)
        requires
            self.wf(),
        ensures
            r == self.view().dom().contains(busid@),
    {
        self.position(busid).is_some()
    }

    /// What is recorded for the bus id.
    pub fn get(&self, busid: &[u8]) -> (r: Option<&V>)
        requires
            self.wf(),
        ensures
            r is None <==> !self.view().dom().contains(busid@),
            r matches Some(v) ==> *v == self.view()[busid@],
    {
        proof {
            lemma_rows_map_lookup(self.rows@);
        }
        match self.position(busid) {
            Some(i) => Some(&self.rows[i].value),
            None => None,
        }
    }

    /// Records `value` for the bus id, replacing what was there; returns the old value.
    pub fn insert(&mut self, busid: Vec<u8>, value: V) -> (r: Option<V>)
        requires
            old(self).wf(),
        ensures
            final(self).wf(),
            final(self).view() == old(self).view().insert(busid@, value),
            r is Some <==> old(self).view().dom().contains(busid@),
            r matches Some(v) ==> v == old(self).view()[busid@],
    {
        proof {
            lemma_rows_map_lookup(self.rows@);
        }
        let ghost k = busid@;
        let ghost before = self.rows@;
        match self.position(busid.as_slice()) {
            Some(i) => {
                let mut old_row = BusidEntry { busid, value };
                std::mem::swap(&mut self.rows[i], &mut old_row);
                proof {
                    let after = self.rows@;
                    assert(after =~= before.update(i as int, after[i as int]));
                    assert(after[i as int].busid@ == k);
                    assert(old_row == before[i as int]);
                    assert(keys_unique(after)) by {
                        assert forall|a: int, b: int|
                            0 <= a < after.len() && 0 <= b < after.len() && a != b implies #[trigger] after[a].busid@
                            != #[trigger] after[b].busid@ by {
                            if a != i {
                                assert(after[a] == before[a]);
                            }
                            if b != i {
                                assert(after[b] == before[b]);
                            }
                        }
                    }
                    lemma_rows_map_lookup(after);
                    let m = rows_map(before).insert(k, value);
                    assert(rows_map(after) =~= m) by {
                        lemma_rows_map_ext(before, after, rows_map(before));
                        assert forall|key: Seq<u8>| #[trigger] rows_map(after).dom().contains(key)
                            implies rows_map(after)[key] == m[key] by {
                            let j = choose|j: int| 0 <= j < after.len() && after[j].busid@ == key;
                            if j != i {
                                assert(after[j] == before[j]);
                            }
                        }
                    }
                }
                Some(old_row.value)
            },
            None => {
                self.rows.push(BusidEntry { busid, value });
                proof {
                    let after = self.rows@;
                    assert(after.drop_last() =~= before);
                    assert(keys_unique(after)) by {
                        assert forall|a: int, b: int|
                            0 <= a < after.len() && 0 <= b < after.len() && a != b implies #[trigger] after[a].busid@
                            != #[trigger] after[b].busid@ by {
                            if a < before.len() && b < before.len() {
                                assert(after[a] == before[a]);
                                assert(after[b] == before[b]);
                            } else if a < before.len() {
                                assert(after[a] == before[a]);
                            } else {
                                assert(after[b] == before[b]);
                            }
                        }
                    }
                }
                None
            },
        }
    }

    /// Drops the row of the bus id; returns what it recorded.
    pub fn remove(&mut self, busid: &[u8]) -> (r: Option<V>)
        requires
            old(self).wf(),
        ensures
            final(self).wf(),
            final(self).view() == old(self).view().remove(busid@),
            r is Some <==> old(self).view().dom().contains(busid@),
            r matches Some(v) ==> v == old(self).view()[busid@],
    {
        proof {
            lemma_rows_map_lookup(self.rows@);
        }
        let ghost before = self.rows@;
        match self.position(busid) {
            Some(i) => {
                let row = self.rows.remove(i);
                proof {
                    let after = self.rows@;
                    assert(after =~= before.remove(i as int));
                    assert(keys_unique(after)) by {
                        assert forall|a: int, b: int|
                            0 <= a < after.len() && 0 <= b < after.len() && a != b implies #[trigger] after[a].busid@
                            != #[trigger] after[b].busid@ by {
                            let a0 = if a < i { a } else { a + 1 };
                            let b0 = if b < i { b } else { b + 1 };
                            assert(after[a] == before[a0]);
                            assert(after[b] == before[b0]);
                        }
                    }
                    lemma_rows_map_lookup(after);
                    let m = rows_map(before).remove(busid@);
                    assert(rows_map(after) =~= m) by {
                        assert forall|key: Seq<u8>| #[trigger] rows_map(after).dom().contains(key)
                            <==> m.dom().contains(key) by {
                            if rows_map(after).dom().contains(key) {
                                let j = choose|j: int| 0 <= j < after.len() && after[j].busid@ == key;
                                let j0 = if j < i { j } else { j + 1 };
                                assert(after[j] == before[j0]);
                            }
                            if m.dom().contains(key) {
                                let j = choose|j: int| 0 <= j < before.len() && before[j].busid@ == key;
                                assert(j != i);
                                let j1 = if j < i { j } else { j - 1 };
                                assert(after[j1] == before[j]);
                            }
                        }
                        assert forall|key: Seq<u8>| #[trigger] rows_map(after).dom().contains(key)
                            implies rows_map(after)[key] == m[key] by {
                            let j = choose|j: int| 0 <= j < after.len() && after[j].busid@ == key;
                            let j0 = if j < i { j } else { j + 1 };
                            assert(after[j] == before[j0]);
                        }
                    }
                }
                Some(row.value)
            },
            None => {
                assert(self.view() =~= self.view().remove(busid@));
                None
            },
        }
    }

    /// Number of rows.
    pub fn len(&self) -> (r: usize)
        requires
            self.wf(),
        ensures
            r == self.view().dom().len(),
    {
        proof {
            lemma_rows_map_len(self.rows@);
        }
        self.rows.len()
    }
}

proof fn lemma_rows_map_len<V>(rows: Seq<BusidEntry<V>>)
    requires
        keys_unique(rows),
    ensures
        rows_map(rows).dom().finite(),
        rows_map(rows).dom().len() == rows.len(),
    decreases rows.len(),
{
    if rows.len() > 0 {
        let init = rows.drop_last();
        assert(keys_unique(init));
        lemma_rows_map_len(init);
        lemma_rows_map_lookup(init);
        assert(!rows_map(init).dom().contains(rows.last().busid@)) by {
            if rows_map(init).dom().contains(rows.last().busid@) {
                let i = choose|i: int| 0 <= i < init.len() && init[i].busid@ == rows.last().busid@;
                assert(rows[i] == init[i]);
            }
        }
    }
}

} // verus!
