use vstd::prelude::*;

verus! {

/// A row of a relation with a primary key.
pub trait Row: Sized {
    /// The key as the code holds it.
    type Key;
    /// The key as contracts speak of it.
    type K;
    /// The row as contracts speak of it.
    type V;

    spec fn key(&self) -> Self::K;

    spec fn key_view(k: &Self::Key) -> Self::K;

    spec fn row_view(&self) -> Self::V;

    fn has_key(&self, k: &Self::Key) -> (r: bool)
        ensures
            r == (self.key() == Self::key_view(k)),
    ;
}

/// No two rows share a key.
pub open spec fn keys_unique<R: Row>(rows: Seq<R>) -> bool {
    forall|i: int, j: int|
        0 <= i < rows.len() && 0 <= j < rows.len() && i != j ==> #[trigger] rows[i].key()
            != #[trigger] rows[j].key()
}

pub open spec fn has_row_with_key<R: Row>(rows: Seq<R>, k: R::K) -> bool {
    exists|i: int| 0 <= i < rows.len() && #[trigger] rows[i].key() == k
}

/// The relation as a map from key to row.
pub open spec fn view_of<R: Row>(rows: Seq<R>) -> Map<R::K, R::V> {
    Map::new(
        |k: R::K| has_row_with_key(rows, k),
        |k: R::K| rows[choose|i: int| 0 <= i < rows.len() && #[trigger] rows[i].key() == k].row_view(),
    )
}

pub proof fn lemma_view_at<R: Row>(rows: Seq<R>, i: int)
    requires
        keys_unique(rows),
        0 <= i < rows.len(),
    ensures
        view_of(rows).contains_key(rows[i].key()),
        view_of(rows)[rows[i].key()] == rows[i].row_view(),
{
    let k = rows[i].key();
    assert(has_row_with_key(rows, k));
    let j = choose|j: int| 0 <= j < rows.len() && #[trigger] rows[j].key() == k;
    assert(rows[j].key() == rows[i].key());
}

pub proof fn lemma_view_has_row<R: Row>(rows: Seq<R>, k: R::K)
    requires
        view_of(rows).contains_key(k),
    ensures
        exists|i: int| 0 <= i < rows.len() && #[trigger] rows[i].key() == k,
{
}

/// A relation: rows in a `Vec` with unique keys.
pub struct Table<R> {
    pub(crate) rows: Vec<R>,
}

impl<R: Row> Table<R> {
    pub(crate) open spec fn wf(&self) -> bool {
        keys_unique(self.rows@)
    }

    pub(crate) open spec fn view(&self) -> Map<R::K, R::V> {
        view_of(self.rows@)
    }

    pub(crate) fn new() -> (t: Table<R>)
        ensures
            t.wf(),
            t.rows@.len() == 0,
            t.view() == Map::<R::K, R::V>::empty(),
    {
        let t = Table { rows: Vec::new() };
        assert(t.view() =~= Map::<R::K, R::V>::empty());
        t
    }

    pub(crate) fn len(&self) -> (n: usize)
        ensures
            n == self.rows@.len(),
    {
        self.rows.len()
    }

    pub(crate) fn get(&self, i: usize) -> (r: &R)
        requires
            i < self.rows@.len(),
        ensures
            *r == self.rows@[i as int],
    {
        &self.rows[i]
    }

    /// The index of the row with key `k`, if there is one.
    pub(crate) fn find(&self, k: &R::Key) -> (r: Option<usize>)
        requires
            self.wf(),
        ensures
            match r {
                Some(i) => i < self.rows@.len() && self.rows@[i as int].key() == R::key_view(k)
                    && self.view().contains_key(R::key_view(k)) && self.view()[R::key_view(k)]
                    == self.rows@[i as int].row_view(),
                None => !self.view().contains_key(R::key_view(k)),
            },
    {
        let mut i: usize = 0;
        while i < self.rows.len()
            invariant
                self.wf(),
                i <= self.rows@.len(),
                forall|j: int| 0 <= j < i ==> #[trigger] self.rows@[j].key() != R::key_view(k),
            decreases self.rows@.len() - i,
        {
            if self.rows[i].has_key(k) {
                proof {
                    lemma_view_at(self.rows@, i as int);
                }
                return Some(i);
            }
            i = i + 1;
        }
        None
    }

    /// Adds a row whose key is not in the relation yet.
    pub(crate) fn push(&mut self, r: R)
        requires
            old(self).wf(),
            !old(self).view().contains_key(r.key()),
        ensures
            final(self).wf(),
            final(self).rows@ == old(self).rows@.push(r),
            final(self).view() == old(self).view().insert(r.key(), r.row_view()),
    {
        let ghost old_rows = self.rows@;
        let ghost k0 = r.key();
        let ghost v0 = r.row_view();
        self.rows.push(r);
        let ghost rows = self.rows@;
        assert forall|i: int, j: int|
            0 <= i < rows.len() && 0 <= j < rows.len() && i != j implies #[trigger] rows[i].key()
            != #[trigger] rows[j].key() by {
            if i == old_rows.len() as int && j < old_rows.len() {
                lemma_view_at(old_rows, j);
            } else if j == old_rows.len() as int && i < old_rows.len() {
                lemma_view_at(old_rows, i);
            } else {
                assert(rows[i] == old_rows[i] && rows[j] == old_rows[j]);
            }
        }
        assert forall|k: R::K| #[trigger]
            view_of(rows).contains_key(k) == view_of(old_rows).insert(k0, v0).contains_key(k) by {
            if view_of(rows).contains_key(k) {
                let i = choose|i: int| 0 <= i < rows.len() && #[trigger] rows[i].key() == k;
                if i < old_rows.len() {
                    assert(old_rows[i] == rows[i]);
                }
            }
            if view_of(old_rows).contains_key(k) {
                let i = choose|i: int| 0 <= i < old_rows.len() && #[trigger] old_rows[i].key() == k;
                assert(old_rows[i] == rows[i]);
            }
            if k == k0 {
                assert(rows[old_rows.len() as int].key() == k0);
            }
        }
        assert forall|k: R::K| #[trigger] view_of(rows).contains_key(k) implies view_of(rows)[k]
            == view_of(old_rows).insert(k0, v0)[k] by {
            let i = choose|i: int| 0 <= i < rows.len() && #[trigger] rows[i].key() == k;
            lemma_view_at(rows, i);
            if i < old_rows.len() {
                assert(old_rows[i] == rows[i]);
                lemma_view_at(old_rows, i);
            }
        }
        assert(view_of(rows) =~= view_of(old_rows).insert(k0, v0));
    }

    /// Replaces the row at index `i` by one with the same key.
    pub(crate) fn set(&mut self, i: usize, r: R)
        requires
            old(self).wf(),
            i < old(self).rows@.len(),
            r.key() == old(self).rows@[i as int].key(),
        ensures
            final(self).wf(),
            final(self).rows@ == old(self).rows@.update(i as int, r),
            final(self).view() == old(self).view().insert(r.key(), r.row_view()),
    {
        let ghost old_rows = self.rows@;
        let ghost k0 = r.key();
        let ghost v0 = r.row_view();
        self.rows.set(i, r);
        let ghost rows = self.rows@;
        assert forall|a: int, b: int|
            0 <= a < rows.len() && 0 <= b < rows.len() && a != b implies #[trigger] rows[a].key()
            != #[trigger] rows[b].key() by {
            assert(rows[a].key() == old_rows[a].key());
            assert(rows[b].key() == old_rows[b].key());
        }
        assert forall|k: R::K| #[trigger]
            view_of(rows).contains_key(k) == view_of(old_rows).insert(k0, v0).contains_key(k) by {
            if view_of(rows).contains_key(k) {
                let j = choose|j: int| 0 <= j < rows.len() && #[trigger] rows[j].key() == k;
                assert(old_rows[j].key() == k);
            }
            if view_of(old_rows).contains_key(k) {
                let j = choose|j: int| 0 <= j < old_rows.len() && #[trigger] old_rows[j].key() == k;
                assert(rows[j].key() == k);
            }
            if k == k0 {
                assert(rows[i as int].key() == k0);
            }
        }
        assert forall|k: R::K| #[trigger] view_of(rows).contains_key(k) implies view_of(rows)[k]
            == view_of(old_rows).insert(k0, v0)[k] by {
            let j = choose|j: int| 0 <= j < rows.len() && #[trigger] rows[j].key() == k;
            lemma_view_at(rows, j);
            if j != i {
                assert(old_rows[j] == rows[j]);
                lemma_view_at(old_rows, j);
            }
        }
        assert(view_of(rows) =~= view_of(old_rows).insert(k0, v0));
    }

    /// Takes out the row at index `i`.
    pub(crate) fn remove(&mut self, i: usize) -> (r: R)
        requires
            old(self).wf(),
            i < old(self).rows@.len(),
        ensures
            final(self).wf(),
            r == old(self).rows@[i as int],
            final(self).rows@ == old(self).rows@.remove(i as int),
            final(self).view() == old(self).view().remove(r.key()),
    {
        let ghost old_rows = self.rows@;
        let r = self.rows.remove(i);
        let ghost k0 = r.key();
        let ghost rows = self.rows@;
        assert forall|a: int, b: int|
            0 <= a < rows.len() && 0 <= b < rows.len() && a != b implies #[trigger] rows[a].key()
            != #[trigger] rows[b].key() by {
            let oa = if a < i { a } else { a + 1 };
            let ob = if b < i { b } else { b + 1 };
            assert(rows[a] == old_rows[oa]);
            assert(rows[b] == old_rows[ob]);
        }
        assert forall|k: R::K| #[trigger]
            view_of(rows).contains_key(k) == view_of(old_rows).remove(k0).contains_key(k) by {
            if view_of(rows).contains_key(k) {
                let j = choose|j: int| 0 <= j < rows.len() && #[trigger] rows[j].key() == k;
                let oj = if j < i { j } else { j + 1 };
                assert(rows[j] == old_rows[oj]);
                assert(old_rows[i as int].key() == k0);
            }
            if view_of(old_rows).contains_key(k) && k != k0 {
                let j = choose|j: int| 0 <= j < old_rows.len() && #[trigger] old_rows[j].key() == k;
                assert(j != i);
                let nj = if j < i { j } else { j - 1 };
                assert(rows[nj] == old_rows[j]);
            }
        }
        assert forall|k: R::K| #[trigger] view_of(rows).contains_key(k) implies view_of(rows)[k]
            == view_of(old_rows).remove(k0)[k] by {
            let j = choose|j: int| 0 <= j < rows.len() && #[trigger] rows[j].key() == k;
            lemma_view_at(rows, j);
            let oj = if j < i { j } else { j + 1 };
            assert(rows[j] == old_rows[oj]);
            lemma_view_at(old_rows, oj);
        }
        assert(view_of(rows) =~= view_of(old_rows).remove(k0));
        r
    }
}

} // verus!
