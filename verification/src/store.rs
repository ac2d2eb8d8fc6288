//! Records and the store that keeps them.
//!
//! A store holds the records of one entity in the order in which they were
//! created. Identifiers are handed out in increasing order and never reused,
//! so the order of creation is the order of the identifiers.

use vstd::prelude::*;
use vstd::string::*;
use crate::text::{
    chars_contain, chars_of, lemma_empty_needle_occurs, lemma_text_lt_irreflexive,
    lemma_text_lt_total, lemma_text_lt_transitive, precedes, text_contains, text_lt,
};

verus! {

/// What a record is: its identifier and its name.
pub struct Row {
    pub id: int,
    pub name: Seq<char>,
}

/// One entry of the catalog, a person or a genre.
#[derive(Clone, Debug, PartialEq, Eq)]
pub struct Record {
    pub id: i32,
    pub name: String,
}

impl View for Record {
    type V = Row;

    open spec fn view(&self) -> Row {
        Row { id: self.id as int, name: self.name@ }
    }
}

/// Why the store did not do what was asked.
#[derive(Clone, Copy, Debug, PartialEq, Eq)]
pub enum StoreError {
    /// No record has the identifier that the operation names.
    NotFound,
    /// The store turned the write down.
    PersistenceError,
}

/// The rows that a sequence of records stands for.
pub open spec fn rows_of(records: Seq<Record>) -> Seq<Row> {
    records.map_values(|r: Record| r@)
}

/// The order of a listing: by name, and among equal names by identifier.
pub open spec fn row_lt(a: Row, b: Row) -> bool {
    text_lt(a.name, b.name) || (a.name == b.name && a.id < b.id)
}

/// Each row comes strictly before the rows after it.
pub open spec fn sorted_by_name(rows: Seq<Row>) -> bool {
    forall|i: int, j: int| 0 <= i < j < rows.len() ==> row_lt(#[trigger] rows[i], #[trigger] rows[j])
}

/// Two sequences of equal length hold the same rows.
pub open spec fn same_rows(a: Seq<Row>, b: Seq<Row>) -> bool {
    &&& a.len() == b.len()
    &&& forall|r: Row| a.contains(r) <==> b.contains(r)
}

/// Some row has the identifier `id`.
pub open spec fn has_id(rows: Seq<Row>, id: int) -> bool {
    exists|k: int| 0 <= k < rows.len() && (#[trigger] rows[k]).id == id
}

/// Where the row with the identifier `id` stands, if there is one.
pub open spec fn position_of(rows: Seq<Row>, id: int) -> int {
    choose|k: int| 0 <= k < rows.len() && (#[trigger] rows[k]).id == id
}

/// The test that a search applies to a row.
pub open spec fn name_has(needle: Seq<char>) -> spec_fn(Row) -> bool {
    |r: Row| text_contains(r.name, needle)
}

/// The rows that a search for `needle` finds, in the order of the store.
pub open spec fn found(rows: Seq<Row>, needle: Seq<char>) -> Seq<Row> {
    rows.filter(name_has(needle))
}

/// What holds of the rows of a store whose next identifier is `fresh`:
/// identifiers are positive, below `fresh`, and strictly increasing.
pub open spec fn rows_wf(rows: Seq<Row>, fresh: int) -> bool {
    &&& 1 <= fresh <= i32::MAX
    &&& forall|i: int| 0 <= i < rows.len() ==> 1 <= (#[trigger] rows[i]).id < fresh
    &&& forall|i: int, j: int|
        0 <= i < j < rows.len() ==> (#[trigger] rows[i]).id < (#[trigger] rows[j]).id
}

/// Of two different rows one comes before the other.
pub proof fn lemma_row_lt_total(a: Row, b: Row)
    ensures
        row_lt(a, b) || row_lt(b, a) || a == b,
{
    lemma_text_lt_total(a.name, b.name);
}

/// The order of a listing is transitive.
pub proof fn lemma_row_lt_transitive(a: Row, b: Row, c: Row)
    requires
        row_lt(a, b),
        row_lt(b, c),
    ensures
        row_lt(a, c),
{
    if text_lt(a.name, b.name) && text_lt(b.name, c.name) {
        lemma_text_lt_transitive(a.name, b.name, c.name);
    }
}

/// No row comes before itself.
pub proof fn lemma_row_lt_irreflexive(a: Row)
    ensures
        !row_lt(a, a),
{
    lemma_text_lt_irreflexive(a.name);
}

/// A listing is determined by the rows that it holds: two sorted sequences
/// of the same rows are the same sequence.
pub proof fn lemma_listing_unique(a: Seq<Row>, b: Seq<Row>)
    requires
        sorted_by_name(a),
        sorted_by_name(b),
        same_rows(a, b),
    ensures
        a == b,
    decreases a.len(),
{
    if a.len() == 0 {
        assert(a =~= b);
    } else {
        assert(a.contains(a[0]));
        assert(b.contains(b[0]));
        let k = choose|k: int| 0 <= k < b.len() && b[k] == a[0];
        let j = choose|j: int| 0 <= j < a.len() && a[j] == b[0];
        if k > 0 && j > 0 {
            lemma_row_lt_transitive(a[0], b[0], a[0]);
            lemma_row_lt_irreflexive(a[0]);
        }
        assert(a[0] == b[0]);
        let ta = a.drop_first();
        let tb = b.drop_first();
        assert forall|r: Row| ta.contains(r) <==> tb.contains(r) by {
            lemma_row_lt_irreflexive(r);
            if ta.contains(r) {
                let i = choose|i: int| 0 <= i < ta.len() && ta[i] == r;
                assert(a[i + 1] == r);
                assert(a.contains(r));
                let m = choose|m: int| 0 <= m < b.len() && b[m] == r;
                assert(row_lt(a[0], a[i + 1]));
                assert(tb[m - 1] == r);
            }
            if tb.contains(r) {
                let i = choose|i: int| 0 <= i < tb.len() && tb[i] == r;
                assert(b[i + 1] == r);
                assert(b.contains(r));
                let m = choose|m: int| 0 <= m < a.len() && a[m] == r;
                assert(row_lt(b[0], b[i + 1]));
                assert(ta[m - 1] == r);
            }
        }
        assert(sorted_by_name(ta)) by {
            assert forall|i: int, j: int| 0 <= i < j < ta.len() implies row_lt(
                #[trigger] ta[i],
                #[trigger] ta[j],
            ) by {
                assert(ta[i] == a[i + 1] && ta[j] == a[j + 1]);
            }
        }
        assert(sorted_by_name(tb)) by {
            assert forall|i: int, j: int| 0 <= i < j < tb.len() implies row_lt(
                #[trigger] tb[i],
                #[trigger] tb[j],
            ) by {
                assert(tb[i] == b[i + 1] && tb[j] == b[j + 1]);
            }
        }
        lemma_listing_unique(ta, tb);
        assert(a =~= seq![a[0]] + ta);
        assert(b =~= seq![b[0]] + tb);
    }
}

/// After a record is created, a listing holds the rows that it held and the
/// new row, one row more, and the new row's identifier is one that no row
/// had before.
pub proof fn lemma_create_adds_one(before: Seq<Row>, fresh: int, name: Seq<char>, listing: Seq<Row>)
    requires
        rows_wf(before, fresh),
        fresh < i32::MAX,
        same_rows(listing, before.push(Row { id: fresh, name })),
    ensures
        listing.len() == before.len() + 1,
        listing.contains(Row { id: fresh, name }),
        forall|r: Row| listing.contains(r) <==> (before.contains(r) || r == (Row { id: fresh, name })),
        !has_id(before, fresh),
        rows_wf(before.push(Row { id: fresh, name }), fresh + 1),
{
    let x = Row { id: fresh, name };
    lemma_insert_contains(before, before.len() as int, x);
    assert(before.insert(before.len() as int, x) =~= before.push(x));
    assert(before.push(x)[before.len() as int] == x);
}

/// A row put between the rows that it follows and those that it precedes
/// leaves a sorted sequence sorted.
proof fn lemma_insert_keeps_sorted(s: Seq<Row>, p: int, x: Row)
    requires
        sorted_by_name(s),
        0 <= p <= s.len(),
        forall|k: int| 0 <= k < p ==> !row_lt(x, #[trigger] s[k]),
        p < s.len() ==> row_lt(x, s[p]),
        forall|k: int| 0 <= k < s.len() ==> #[trigger] s[k] != x,
    ensures
        sorted_by_name(s.insert(p, x)),
{
    let t = s.insert(p, x);
    assert forall|i: int, j: int| 0 <= i < j < t.len() implies row_lt(
        #[trigger] t[i],
        #[trigger] t[j],
    ) by {
        if j < p {
            assert(t[i] == s[i] && t[j] == s[j]);
        } else if j == p {
            assert(t[i] == s[i]);
            lemma_row_lt_total(s[i], x);
        } else if i < p {
            assert(t[i] == s[i] && t[j] == s[j - 1]);
        } else if i == p {
            assert(t[j] == s[j - 1]);
            if j - 1 > p {
                lemma_row_lt_transitive(x, s[p], s[j - 1]);
            }
        } else {
            assert(t[i] == s[i - 1] && t[j] == s[j - 1]);
        }
    }
}

/// After an insertion a sequence holds what it held and the new row.
proof fn lemma_insert_contains(s: Seq<Row>, p: int, x: Row)
    requires
        0 <= p <= s.len(),
    ensures
        forall|r: Row| s.insert(p, x).contains(r) <==> (s.contains(r) || r == x),
{
    let t = s.insert(p, x);
    assert forall|r: Row| t.contains(r) <==> (s.contains(r) || r == x) by {
        if t.contains(r) {
            let k = choose|k: int| 0 <= k < t.len() && t[k] == r;
            if k < p {
                assert(s[k] == r);
            } else if k > p {
                assert(s[k - 1] == r);
            }
        }
        if s.contains(r) {
            let k = choose|k: int| 0 <= k < s.len() && s[k] == r;
            if k < p {
                assert(t[k] == r);
            } else {
                assert(t[k + 1] == r);
            }
        }
        if r == x {
            assert(t[p] == r);
        }
    }
}

/// A search keeps every row whose name holds the needle, and only those.
pub proof fn lemma_found_iff(rows: Seq<Row>, needle: Seq<char>, r: Row)
    ensures
        found(rows, needle).contains(r) <==> (rows.contains(r) && text_contains(r.name, needle)),
{
    let pred = name_has(needle);
    let f = rows.filter(pred);
    if f.contains(r) {
        let k = choose|k: int| 0 <= k < f.len() && f[k] == r;
        rows.lemma_filter_pred(pred, k);
        rows.lemma_filter_contains_rev(pred, r);
    }
    if rows.contains(r) && text_contains(r.name, needle) {
        let k = choose|k: int| 0 <= k < rows.len() && rows[k] == r;
        rows.lemma_filter_contains(pred, k);
    }
}

/// A search that every row passes returns the rows as they are.
proof fn lemma_filter_keeps_all(rows: Seq<Row>, pred: spec_fn(Row) -> bool)
    requires
        forall|k: int| 0 <= k < rows.len() ==> pred(#[trigger] rows[k]),
    ensures
        rows.filter(pred) == rows,
    decreases rows.len(),
{
    reveal(Seq::filter);
    if rows.len() > 0 {
        let front = rows.drop_last();
        assert forall|k: int| 0 <= k < front.len() implies pred(#[trigger] front[k]) by {
            assert(front[k] == rows[k]);
        }
        lemma_filter_keeps_all(front, pred);
        assert(front.push(rows.last()) =~= rows);
    }
}

/// A search for the empty text finds every row.
pub proof fn lemma_found_empty_needle(rows: Seq<Row>)
    ensures
        found(rows, Seq::<char>::empty()) == rows,
{
    let pred = name_has(Seq::<char>::empty());
    assert forall|k: int| 0 <= k < rows.len() implies pred(#[trigger] rows[k]) by {
        lemma_empty_needle_occurs(rows[k].name);
    }
    lemma_filter_keeps_all(rows, pred);
}

/// Whether `a` comes before `b` in a listing.
pub fn record_precedes(a: &Record, b: &Record) -> (r: bool)
    ensures
        r == row_lt(a@, b@),
{
    if precedes(a.name.as_str(), b.name.as_str()) {
        true
    } else if a.name == b.name {
        a.id < b.id
    } else {
        false
    }
}

/// Where `rec` goes in the sorted `out`: behind every record that it does not
/// precede, in front of the first that it precedes.
fn insertion_point(out: &Vec<Record>, rec: &Record) -> (p: usize)
    ensures
        p <= out.len(),
        forall|k: int| 0 <= k < p ==> !row_lt(rec@, #[trigger] rows_of(out@)[k]),
        p < out.len() ==> row_lt(rec@, rows_of(out@)[p as int]),
{
    let mut p: usize = 0;
    while p < out.len()
        invariant
            p <= out.len(),
            forall|k: int| 0 <= k < p ==> !row_lt(rec@, #[trigger] rows_of(out@)[k]),
        decreases out.len() - p,
    {
        if record_precedes(rec, &out[p]) {
            return p;
        }
        p = p + 1;
    }
    p
}

/// The records of one entity.
pub struct Store {
    rows: Vec<Record>,
    next_id: i32,
}

impl View for Store {
    type V = Seq<Row>;

    /// The rows of the store, in the order of their creation.
    closed spec fn view(&self) -> Seq<Row> {
        rows_of(self.rows@)
    }
}

impl Store {
    /// The identifier that the next created record gets.
    pub closed spec fn fresh_id(&self) -> int {
        self.next_id as int
    }

    /// The store's invariant.
    pub open spec fn wf(&self) -> bool {
        rows_wf(self@, self.fresh_id())
    }

    /// An empty store, whose first record will have the identifier 1.
    pub fn new() -> (s: Store)
        ensures
            s.wf(),
            s@ == Seq::<Row>::empty(),
            s.fresh_id() == 1,
    {
        let s = Store { rows: Vec::new(), next_id: 1 };
        proof {
            assert(s@ =~= Seq::<Row>::empty());
        }
        s
    }

    /// An empty store whose first record will have the identifier `first`, or
    /// nothing where `first` is not positive.
    pub fn starting_at(first: i32) -> (r: Option<Store>)
        ensures
            match r {
                Some(s) => first >= 1 && s.wf() && s@ == Seq::<Row>::empty() && s.fresh_id()
                    == first,
                None => first < 1,
            },
    {
        if first < 1 {
            return None;
        }
        let s = Store { rows: Vec::new(), next_id: first };
        proof {
            assert(s@ =~= Seq::<Row>::empty());
        }
        Some(s)
    }

    /// How many records the store holds.
    pub fn len(&self) -> (n: usize)
        ensures
            n == self@.len(),
    {
        self.rows.len()
    }

    /// Where the record with the identifier `id` stands.
    fn position(&self, id: i32) -> (r: Option<usize>)
        requires
            self.wf(),
        ensures
            match r {
                Some(k) => has_id(self@, id as int) && k == position_of(self@, id as int),
                None => !has_id(self@, id as int),
            },
            has_id(self@, id as int) ==> 0 <= position_of(self@, id as int) < self@.len()
                && self@[position_of(self@, id as int)].id == id,
    {
        let mut k: usize = 0;
        while k < self.rows.len()
            invariant
                self.wf(),
                k <= self.rows.len(),
                forall|j: int| 0 <= j < k ==> (#[trigger] self@[j]).id != id,
            decreases self.rows.len() - k,
        {
            if self.rows[k].id == id {
                proof {
                    assert(self@[k as int].id == id);
                }
                return Some(k);
            }
            k = k + 1;
        }
        None
    }

    /// The record with the identifier `id`, if the store holds one.
    pub fn find_by_id(&self, id: i32) -> (r: Option<Record>)
        requires
            self.wf(),
        ensures
            match r {
                Some(rec) => has_id(self@, id as int) && rec@ == self@[position_of(
                    self@,
                    id as int,
                )],
                None => !has_id(self@, id as int),
            },
    {
        match self.position(id) {
            Some(k) => Some(Record { id: self.rows[k].id, name: self.rows[k].name.clone() }),
            None => None,
        }
    }

    /// All records, sorted by name; records of one name stand in the order of
    /// their identifiers.
    pub fn list_all(&self) -> (out: Vec<Record>)
        requires
            self.wf(),
        ensures
            sorted_by_name(rows_of(out@)),
            same_rows(rows_of(out@), self@),
    {
        let mut out: Vec<Record> = Vec::new();
        let mut i: usize = 0;
        while i < self.rows.len()
            invariant
                self.wf(),
                i <= self.rows.len(),
                out.len() == i,
                sorted_by_name(rows_of(out@)),
                forall|r: Row| rows_of(out@).contains(r) <==> self@.take(i as int).contains(r),
            decreases self.rows.len() - i,
        {
            let rec = Record { id: self.rows[i].id, name: self.rows[i].name.clone() };
            let p = insertion_point(&out, &rec);
            let ghost before = rows_of(out@);
            let ghost x = self@[i as int];
            let ghost seen = self@.take(i as int);
            out.insert(p, rec);
            proof {
                assert(rows_of(out@) =~= before.insert(p as int, x));
                assert forall|k: int| 0 <= k < before.len() implies #[trigger] before[k] != x by {
                    assert(before.contains(before[k]));
                    assert(seen.contains(before[k]));
                    let j = choose|j: int| 0 <= j < seen.len() && seen[j] == before[k];
                    assert(self@[j].id < self@[i as int].id);
                }
                lemma_insert_keeps_sorted(before, p as int, x);
                lemma_insert_contains(before, p as int, x);
                lemma_insert_contains(seen, i as int, x);
                assert(seen.insert(i as int, x) =~= self@.take(i + 1));
                assert forall|r: Row|
                    rows_of(out@).contains(r) <==> self@.take(i + 1).contains(r) by {
                    assert(before.insert(p as int, x).contains(r) <==> (before.contains(r) || r
                        == x));
                    assert(seen.insert(i as int, x).contains(r) <==> (seen.contains(r) || r == x));
                    assert(before.contains(r) <==> seen.contains(r));
                }
            }
            i = i + 1;
        }
        proof {
            assert(self@.take(i as int) =~= self@);
        }
        out
    }

    /// The records whose name holds `needle`, in the order of the store. The
    /// match is exact: case counts.
    pub fn find_by_substring(&self, needle: &str) -> (out: Vec<Record>)
        ensures
            rows_of(out@) == found(self@, needle@),
    {
        let wanted = chars_of(needle);
        let mut out: Vec<Record> = Vec::new();
        let mut i: usize = 0;
        proof {
            reveal(Seq::filter);
            assert(self@.take(0) =~= Seq::<Row>::empty());
            assert(rows_of(out@) =~= found(self@.take(0), needle@));
        }
        while i < self.rows.len()
            invariant
                wanted@ == needle@,
                i <= self.rows.len(),
                rows_of(out@) == found(self@.take(i as int), needle@),
            decreases self.rows.len() - i,
        {
            let ghost before = rows_of(out@);
            proof {
                reveal(Seq::filter);
                let s = self@.take(i + 1);
                assert(s.drop_last() =~= self@.take(i as int));
                assert(s.last() == self@[i as int]);
            }
            let name = chars_of(self.rows[i].name.as_str());
            if chars_contain(&name, &wanted) {
                out.push(Record { id: self.rows[i].id, name: self.rows[i].name.clone() });
                proof {
                    assert(rows_of(out@) =~= before.push(self@[i as int]));
                }
            }
            i = i + 1;
        }
        proof {
            assert(self@.take(i as int) =~= self@);
        }
        out
    }

    /// Adds a record with the name `name` under the next identifier. The store
    /// turns the write down when it has no identifier left to give.
    pub fn create(&mut self, name: String) -> (r: Result<Record, StoreError>)
        requires
            old(self).wf(),
        ensures
            final(self).wf(),
            match r {
                Ok(rec) => {
                    &&& old(self).fresh_id() < i32::MAX
                    &&& rec@ == (Row { id: old(self).fresh_id(), name: name@ })
                    &&& final(self)@ == old(self)@.push(rec@)
                    &&& final(self).fresh_id() == old(self).fresh_id() + 1
                },
                Err(e) => {
                    &&& e == StoreError::PersistenceError
                    &&& old(self).fresh_id() == i32::MAX
                    &&& final(self)@ == old(self)@
                    &&& final(self).fresh_id() == old(self).fresh_id()
                },
            },
    {
        if self.next_id == i32::MAX {
            return Err(StoreError::PersistenceError);
        }
        let id: i32 = self.next_id;
        let rec = Record { id, name: name.clone() };
        self.rows.push(Record { id, name });
        self.next_id = id + 1;
        proof {
            assert(self@ =~= old(self)@.push(rec@));
        }
        Ok(rec)
    }

    /// Gives the record with the identifier `id` the name `name`.
    pub fn update(&mut self, id: i32, name: String) -> (r: Result<Record, StoreError>)
        requires
            old(self).wf(),
        ensures
            final(self).wf(),
            final(self).fresh_id() == old(self).fresh_id(),
            match r {
                Ok(rec) => {
                    &&& has_id(old(self)@, id as int)
                    &&& rec@ == (Row { id: id as int, name: name@ })
                    &&& final(self)@ == old(self)@.update(position_of(old(self)@, id as int), rec@)
                },
                Err(e) => {
                    &&& e == StoreError::NotFound
                    &&& !has_id(old(self)@, id as int)
                    &&& final(self)@ == old(self)@
                },
            },
    {
        match self.position(id) {
            None => Err(StoreError::NotFound),
            Some(k) => {
                let rec = Record { id, name: name.clone() };
                self.rows.set(k, Record { id, name });
                proof {
                    assert(self@ =~= old(self)@.update(k as int, rec@));
                }
                Ok(rec)
            },
        }
    }

    /// Removes the record with the identifier `id`.
    pub fn delete(&mut self, id: i32) -> (r: Result<(), StoreError>)
        requires
            old(self).wf(),
        ensures
            final(self).wf(),
            final(self).fresh_id() == old(self).fresh_id(),
            match r {
                Ok(_) => {
                    &&& has_id(old(self)@, id as int)
                    &&& final(self)@ == old(self)@.remove(position_of(old(self)@, id as int))
                },
                Err(e) => {
                    &&& e == StoreError::NotFound
                    &&& !has_id(old(self)@, id as int)
                    &&& final(self)@ == old(self)@
                },
            },
    {
        match self.position(id) {
            None => Err(StoreError::NotFound),
            Some(k) => {
                self.rows.remove(k);
                proof {
                    assert(self@ =~= old(self)@.remove(k as int));
                }
                Ok(())
            },
        }
    }
}

} // verus!
