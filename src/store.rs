//! The collection of records loaded from a directory: identifiers are
//! unique, and new identifiers follow the largest one present.
use vstd::prelude::*;
use crate::codec::ParseError;
use crate::records::{DataId, TodoFile};

verus! {

/// The identifier of a record.
pub open spec fn id_of(f: TodoFile) -> DataId {
    f.data.front_matter.id
}

/// No two records of `s` share an identifier.
pub open spec fn ids_unique(s: Seq<TodoFile>) -> bool {
    forall|i: int, j: int| 0 <= i < j < s.len() ==> id_of(s[i]) != id_of(s[j])
}

/// Some record of `s` has identifier `id`.
pub open spec fn has_id(s: Seq<TodoFile>, id: DataId) -> bool {
    exists|i: int| 0 <= i < s.len() && id_of(s[i]) == id
}

/// The identifiers of the records of `s`.
pub open spec fn id_set(s: Seq<TodoFile>) -> Set<DataId> {
    Set::new(|id: DataId| has_id(s, id))
}

/// The largest member of `ids`.
pub open spec fn max_of(ids: Set<DataId>) -> DataId {
    choose|m: DataId| ids.contains(m) && forall|k: DataId| ids.contains(k) ==> k <= m
}

/// The identifier that follows `ids`: one more than the largest, or 1 when
/// there is none.
pub open spec fn next_id_of(ids: Set<DataId>) -> int {
    if ids == Set::<DataId>::empty() {
        1
    } else {
        max_of(ids) + 1
    }
}

/// The records that parsed, in the order of `entries`.
pub open spec fn parsed(entries: Seq<Result<TodoFile, ParseError>>) -> Seq<TodoFile>
    decreases entries.len(),
{
    if entries.len() == 0 {
        Seq::empty()
    } else {
        let rest = parsed(entries.drop_last());
        match entries.last() {
            Ok(f) => rest.push(f),
            Err(_) => rest,
        }
    }
}

/// Why a collection could not be built.
#[derive(Clone, Copy, Debug, PartialEq, Eq, Structural)]
pub enum StoreError {
    /// Two records carry this identifier.
    Conflict(DataId),
}

/// Records keyed by their identifiers.
#[derive(Debug)]
pub struct Collection {
    records: Vec<TodoFile>,
}

impl View for Collection {
    type V = Seq<TodoFile>;

    closed spec fn view(&self) -> Seq<TodoFile> {
        self.records@
    }
}

proof fn lemma_parsed_prefix(e: Seq<Result<TodoFile, ParseError>>, k: int)
    requires
        0 <= k <= e.len(),
    ensures
        parsed(e.take(k)).len() <= parsed(e).len(),
        forall|i: int| 0 <= i < parsed(e.take(k)).len() ==> parsed(e.take(k))[i] == parsed(e)[i],
    decreases e.len(),
{
    if k == e.len() {
        assert(e.take(k) =~= e);
    } else {
        let d = e.drop_last();
        assert(e.take(k) =~= d.take(k));
        lemma_parsed_prefix(d, k);
    }
}

impl Collection {
    /// No two records share an identifier.
    pub open spec fn wf(&self) -> bool {
        ids_unique(self@)
    }

    /// An empty collection.
    pub fn new() -> (r: Collection)
        ensures
            r.wf(),
            r@ == Seq::<TodoFile>::empty(),
    {
        Collection { records: Vec::new() }
    }

    /// The number of records.
    pub fn len(&self) -> (r: usize)
        ensures
            r == self@.len(),
    {
        self.records.len()
    }

    /// Whether a record has identifier `id`.
    pub fn contains_id(&self, id: DataId) -> (r: bool)
        ensures
            r == has_id(self@, id),
    {
        let mut i: usize = 0;
        while i < self.records.len()
            invariant
                i <= self@.len(),
                self@ == self.records@,
                forall|j: int| 0 <= j < i ==> id_of(self@[j]) != id,
            decreases self.records.len() - i,
        {
            if self.records[i].id() == id {
                return true;
            }
            i = i + 1;
        }
        false
    }

    /// The record with identifier `id`, if any.
    pub fn get(&self, id: DataId) -> (r: Option<&TodoFile>)
        ensures
            r is Some <==> has_id(self@, id),
            r matches Some(f) ==> id_of(*f) == id && self@.contains(*f),
    {
        let mut i: usize = 0;
        while i < self.records.len()
            invariant
                i <= self@.len(),
                self@ == self.records@,
                forall|j: int| 0 <= j < i ==> id_of(self@[j]) != id,
            decreases self.records.len() - i,
        {
            if self.records[i].id() == id {
                return Some(&self.records[i]);
            }
            i = i + 1;
        }
        None
    }

    /// Adds `file` unless a record with its identifier is already present,
    /// which is a conflict that leaves the collection unchanged.
    pub fn insert(&mut self, file: TodoFile) -> (r: Result<(), StoreError>)
        requires
            old(self).wf(),
        ensures
            final(self).wf(),
            r is Ok <==> !has_id(old(self)@, id_of(file)),
            r is Ok ==> final(self)@ == old(self)@.push(file),
            r matches Err(e) ==> e == StoreError::Conflict(id_of(file)) && final(self)@ == old(
                self,
            )@,
    {
        let id = file.id();
        if self.contains_id(id) {
            return Err(StoreError::Conflict(id));
        }
        self.records.push(file);
        proof {
            assert forall|i: int, j: int| 0 <= i < j < self@.len() implies id_of(self@[i])
                != id_of(self@[j]) by {
                if j == self@.len() - 1 {
                    assert(id_of(old(self)@[i]) != id);
                }
            }
        }
        Ok(())
    }

    /// The identifier for a new record: one more than the largest present,
    /// or 1 when the collection is empty; `None` when that number does not
    /// fit an identifier.
    pub fn next_id(&self) -> (r: Option<DataId>)
        ensures
            r is Some <==> next_id_of(id_set(self@)) <= DataId::MAX,
            r matches Some(n) ==> n == next_id_of(id_set(self@)),
    {
        let mut best: Option<DataId> = None;
        let mut i: usize = 0;
        while i < self.records.len()
            invariant
                i <= self@.len(),
                self@ == self.records@,
                best is None <==> i == 0,
                best matches Some(m) ==> (exists|j: int| 0 <= j < i && id_of(self@[j]) == m)
                    && forall|j: int| 0 <= j < i ==> id_of(self@[j]) <= m,
            decreases self.records.len() - i,
        {
            let id = self.records[i].id();
            match best {
                None => {
                    best = Some(id);
                },
                Some(m) => {
                    if id > m {
                        best = Some(id);
                    }
                },
            }
            i = i + 1;
        }
        let ghost ids = id_set(self@);
        match best {
            None => {
                proof {
                    assert(ids =~= Set::<DataId>::empty());
                }
                Some(1)
            },
            Some(m) => {
                proof {
                    assert(ids.contains(m));
                    assert(forall|k: DataId| ids.contains(k) ==> k <= m);
                    let c = max_of(ids);
                    assert(ids.contains(c) && forall|k: DataId| ids.contains(k) ==> k <= c);
                    assert(ids != Set::<DataId>::empty());
                }
                if m == DataId::MAX {
                    None
                } else {
                    Some(m + 1)
                }
            },
        }
    }

    /// Builds a collection from the outcomes of reading candidate files, in
    /// order. Files that did not parse are skipped; two parsed records with
    /// one identifier abort the whole load with a conflict.
    pub fn load(entries: Vec<Result<TodoFile, ParseError>>) -> (r: Result<Collection, StoreError>)
        ensures
            r is Ok <==> ids_unique(parsed(entries@)),
            r matches Ok(c) ==> c.wf() && c@ == parsed(entries@),
            r matches Err(StoreError::Conflict(id)) ==> exists|i: int, j: int|
                0 <= i < j < parsed(entries@).len() && id_of(parsed(entries@)[i]) == id && id_of(
                    parsed(entries@)[j],
                ) == id,
    {
        let ghost orig = entries@;
        let total = entries.len();
        let mut rest = entries;
        let mut c = Collection::new();
        let mut i: usize = 0;
        while rest.len() > 0
            invariant
                orig == entries@,
                orig.len() == total,
                i <= orig.len(),
                rest@ == orig.subrange(i as int, orig.len() as int),
                c.wf(),
                c@ == parsed(orig.take(i as int)),
            decreases rest.len(),
        {
            let e = rest.remove(0);
            proof {
                assert(orig.take(i + 1).drop_last() =~= orig.take(i as int));
                assert(orig.take(i + 1).last() == e);
            }
            match e {
                Ok(f) => {
                    let ghost fg = f;
                    let res = c.insert(f);
                    if let Err(err) = res {
                        proof {
                            let p = parsed(orig.take(i + 1));
                            assert(p == c@.push(fg));
                            let k = choose|k: int| 0 <= k < c@.len() && id_of(c@[k]) == id_of(fg);
                            lemma_parsed_prefix(orig, i + 1);
                            assert(id_of(parsed(orig)[k]) == id_of(fg));
                            let j = c@.len() as int;
                            assert(p[j] == fg);
                            assert(parsed(orig)[j] == fg);
                            assert(0 <= k < j < parsed(orig).len());
                            assert(id_of(parsed(orig)[k]) == id_of(parsed(orig)[j]));
                            assert(!ids_unique(parsed(orig)));
                            assert(err == StoreError::Conflict(id_of(fg)));
                        }
                        return Err(err);
                    }
                },
                Err(_) => {},
            }
            i = i + 1;
        }
        proof {
            assert(orig.take(i as int) =~= orig);
        }
        Ok(c)
    }
}

/// Two collections that hold the same records, in whatever order, have the
/// same next identifier.
pub proof fn lemma_next_id_ignores_order(a: Seq<TodoFile>, b: Seq<TodoFile>)
    requires
        a.to_set() == b.to_set(),
    ensures
        next_id_of(id_set(a)) == next_id_of(id_set(b)),
{
    assert forall|id: DataId| has_id(a, id) implies has_id(b, id) by {
        let i = choose|i: int| 0 <= i < a.len() && id_of(a[i]) == id;
        assert(a.to_set().contains(a[i]));
        assert(b.to_set().contains(a[i]));
    }
    assert forall|id: DataId| has_id(b, id) implies has_id(a, id) by {
        let i = choose|i: int| 0 <= i < b.len() && id_of(b[i]) == id;
        assert(b.to_set().contains(b[i]));
        assert(a.to_set().contains(b[i]));
    }
    assert(id_set(a) =~= id_set(b));
}

} // verus!
