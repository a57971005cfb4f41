//! A backend that keeps its contents in memory.

use crate::redis_server::{DBError, DB};
use crate::texts::{ascii, text_bytes};
use crate::wire::bytes_eq;
use vstd::prelude::*;

verus! {

/// Whether no key stands twice in `table`.
pub open spec fn distinct_keys(table: Seq<(Vec<u8>, Vec<u8>)>) -> bool {
    forall|i: int, j: int| 0 <= i < j < table.len() ==> table[i].0@ != table[j].0@
}

/// The map that `table` stands for: each key with the value beside it.
pub open spec fn table_map(table: Seq<(Vec<u8>, Vec<u8>)>) -> Map<Seq<u8>, Seq<u8>>
    decreases table.len(),
{
    if table.len() == 0 {
        Map::empty()
    } else {
        table_map(table.drop_last()).insert(table.last().0@, table.last().1@)
    }
}

/// A key is in the map exactly where an entry holds it.
pub proof fn lemma_table_map_keys(table: Seq<(Vec<u8>, Vec<u8>)>, key: Seq<u8>)
    ensures
        table_map(table).contains_key(key) <==> exists|i: int|
            0 <= i < table.len() && (#[trigger] table[i]).0@ == key,
    decreases table.len(),
{
    if table.len() > 0 {
        let front = table.drop_last();
        lemma_table_map_keys(front, key);
        if exists|i: int| 0 <= i < table.len() && (#[trigger] table[i]).0@ == key {
            let i = choose|i: int| 0 <= i < table.len() && (#[trigger] table[i]).0@ == key;
            if i < front.len() {
                assert(front[i].0@ == key);
            }
        }
    }
}

/// Where no key stands twice, the map gives each key the value beside it.
pub proof fn lemma_table_map_value(table: Seq<(Vec<u8>, Vec<u8>)>, i: int)
    requires
        distinct_keys(table),
        0 <= i < table.len(),
    ensures
        table_map(table).contains_key(table[i].0@),
        table_map(table)[table[i].0@] == table[i].1@,
    decreases table.len(),
{
    if i < table.len() - 1 {
        lemma_table_map_value(table.drop_last(), i);
    }
}

/// Where no key stands twice, a new value beside a key is an insertion
/// into the map.
pub proof fn lemma_table_map_update(
    table: Seq<(Vec<u8>, Vec<u8>)>,
    i: int,
    entry: (Vec<u8>, Vec<u8>),
)
    requires
        distinct_keys(table),
        0 <= i < table.len(),
        entry.0@ == table[i].0@,
    ensures
        distinct_keys(table.update(i, entry)),
        table_map(table.update(i, entry)) == table_map(table).insert(entry.0@, entry.1@),
    decreases table.len(),
{
    let new = table.update(i, entry);
    let front = table.drop_last();
    if i == table.len() - 1 {
        assert(new.drop_last() =~= front);
    } else {
        lemma_table_map_update(front, i, entry);
        assert(new.drop_last() =~= front.update(i, entry));
    }
}

/// Whether two tables hold the same keys and values, place by place.
pub open spec fn same_entries(a: Seq<(Vec<u8>, Vec<u8>)>, b: Seq<(Vec<u8>, Vec<u8>)>) -> bool {
    &&& a.len() == b.len()
    &&& forall|i: int| 0 <= i < a.len() ==> a[i].0@ == b[i].0@ && a[i].1@ == b[i].1@
}

/// Tables with the same entries stand for the same map.
pub proof fn lemma_table_map_same(a: Seq<(Vec<u8>, Vec<u8>)>, b: Seq<(Vec<u8>, Vec<u8>)>)
    requires
        same_entries(a, b),
    ensures
        table_map(a) == table_map(b),
    decreases a.len(),
{
    if a.len() > 0 {
        lemma_table_map_same(a.drop_last(), b.drop_last());
    }
}

/// A map from byte-string keys to byte-string values, held in memory.
pub struct SimpleMemDB {
    table: Vec<(Vec<u8>, Vec<u8>)>,
}

impl SimpleMemDB {
    #[verifier::type_invariant]
    spec fn wf(self) -> bool {
        distinct_keys(self.table@)
    }

    /// The contents.
    pub closed spec fn contents(&self) -> Map<Seq<u8>, Seq<u8>> {
        table_map(self.table@)
    }

    /// An empty backend.
    pub fn new() -> (db: Self)
        ensures
            db.contents() == Map::<Seq<u8>, Seq<u8>>::empty(),
    {
        SimpleMemDB { table: Vec::new() }
    }

    /// The place of `key` in the table, if it has one.
    fn find(&self, key: &Vec<u8>) -> (at: Option<usize>)
        ensures
            match at {
                Some(i) => i < self.table@.len() && self.table@[i as int].0@ == key@,
                None => forall|i: int|
                    0 <= i < self.table@.len() ==> (#[trigger] self.table@[i]).0@ != key@,
            },
    {
        let mut i: usize = 0;
        while i < self.table.len()
            invariant
                i <= self.table@.len(),
                forall|j: int| 0 <= j < i ==> (#[trigger] self.table@[j]).0@ != key@,
            decreases self.table.len() - i,
        {
            if bytes_eq(self.table[i].0.as_slice(), key.as_slice()) {
                return Some(i);
            }
            i += 1;
        }
        None
    }
}

impl Clone for SimpleMemDB {
    fn clone(&self) -> (copy: Self)
        ensures
            copy.contents() == self.contents(),
    {
        proof {
            use_type_invariant(self);
        }
        let mut table: Vec<(Vec<u8>, Vec<u8>)> = Vec::new();
        let mut i: usize = 0;
        while i < self.table.len()
            invariant
                i <= self.table@.len(),
                same_entries(table@, self.table@.take(i as int)),
            decreases self.table.len() - i,
        {
            table.push((self.table[i].0.clone(), self.table[i].1.clone()));
            i += 1;
        }
        proof {
            lemma_table_map_same(table@, self.table@);
        }
        SimpleMemDB { table }
    }
}

impl DB for SimpleMemDB {
    open spec fn view(&self) -> Map<Seq<u8>, Seq<u8>> {
        self.contents()
    }

    open spec fn dependable(&self) -> bool {
        true
    }

    fn raw_put(&mut self, key: Vec<u8>, value: Vec<u8>) -> (res: Result<Vec<u8>, DBError>)
        ensures
            res matches Ok(text) && text@ == ascii("Ok"@),
    {
        proof {
            use_type_invariant(&*self);
        }
        let at = self.find(&key);
        let mut table: Vec<(Vec<u8>, Vec<u8>)> = Vec::new();
        std::mem::swap(&mut table, &mut self.table);
        match at {
            Some(i) => {
                proof {
                    lemma_table_map_update(table@, i as int, (key, value));
                }
                table[i] = (key, value);
            },
            None => {
                proof {
                    assert(table@.push((key, value)).drop_last() =~= table@);
                }
                table.push((key, value));
            },
        }
        self.table = table;
        proof {
            reveal_strlit("Ok");
        }
        Ok(text_bytes("Ok"))
    }

    fn raw_get(&self, key: Vec<u8>) -> (res: Result<Vec<u8>, DBError>) {
        proof {
            use_type_invariant(self);
            lemma_table_map_keys(self.table@, key@);
        }
        match self.find(&key) {
            Some(i) => {
                proof {
                    lemma_table_map_value(self.table@, i as int);
                }
                Ok(self.table[i].1.clone())
            },
            None => Err(DBError::NotFound),
        }
    }
}

} // verus!
