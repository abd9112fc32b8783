//! A table of rows, each found by its key.

use vstd::prelude::*;

verus! {

/// A row that a [`Table`] can hold: it carries the key that it is found by.
pub trait Row: Sized + View {
    type Key: View;

    /// The key, as part of what the row says.
    spec fn key_of(row: Self::V) -> <Self::Key as View>::V;

    /// Whether this row is the one found by `key`.
    fn has_key(&self, key: &Self::Key) -> (r: bool)
        ensures
            r == (Self::key_of(self@) == key@),
    ;

    /// The key that the row is found by.
    fn key(&self) -> (r: Self::Key)
        ensures
            r@ == Self::key_of(self@),
    ;

    /// A copy of the row.
    fn copy(&self) -> (r: Self)
        ensures
            r@ == self@,
    ;
}

/// What each of the rows says, in their order.
pub open spec fn rows_view<T: View>(rows: Seq<T>) -> Seq<T::V> {
    rows.map_values(|r: T| r@)
}

/// `rows` lists what `map` holds: each row of it once, and nothing else.
pub open spec fn lists<R: Row>(rows: Seq<R::V>, map: Map<<R::Key as View>::V, R::V>) -> bool {
    &&& rows.no_duplicates()
    &&& forall|v: R::V| #[trigger]
        rows.contains(v) <==> map.contains_key(R::key_of(v)) && map[R::key_of(v)] == v
}

/// Two of `rows` have one key.
pub open spec fn repeats_key<R: Row>(rows: Seq<R::V>) -> bool {
    exists|i: int, j: int|
        0 <= i < j < rows.len() && R::key_of(#[trigger] rows[i]) == R::key_of(#[trigger] rows[j])
}

/// Each row of `map` stands under its own key.
pub open spec fn keyed<R: Row>(map: Map<<R::Key as View>::V, R::V>) -> bool {
    forall|k: <R::Key as View>::V| #[trigger] map.contains_key(k) ==> R::key_of(map[k]) == k
}

/// The rows of `map` that `keep` holds of.
pub open spec fn selected<R: Row>(
    map: Map<<R::Key as View>::V, R::V>,
    keep: spec_fn(R::V) -> bool,
) -> Map<<R::Key as View>::V, R::V> {
    Map::new(|k: <R::Key as View>::V| map.contains_key(k) && keep(map[k]), |k| map[k])
}

/// Rows in the order in which they were first put in, no two with one key.
pub struct Table<R: Row> {
    rows: Vec<R>,
}

impl<R: Row> View for Table<R> {
    type V = Map<<R::Key as View>::V, R::V>;

    closed spec fn view(&self) -> Self::V {
        Map::new(
            |k: <R::Key as View>::V| exists|i: int| self.at(i, k),
            |k: <R::Key as View>::V| self.rows@[choose|i: int| self.at(i, k)]@,
        )
    }
}

impl<R: Row> Table<R> {
    /// Whether the row at position `i` is the one found by `k`.
    closed spec fn at(self, i: int, k: <R::Key as View>::V) -> bool {
        0 <= i < self.rows@.len() && R::key_of(self.rows@[i]@) == k
    }

    /// What the rows say, in their order.
    pub closed spec fn listed(&self) -> Seq<R::V> {
        rows_view(self.rows@)
    }

    /// No two rows have one key.
    pub closed spec fn wf(&self) -> bool {
        forall|i: int, j: int|
            0 <= i < j < self.rows@.len() ==> R::key_of(self.rows@[i]@) != R::key_of(
                self.rows@[j]@,
            )
    }

    /// The listing and the lookup agree, and each row is found by its own key.
    pub proof fn lemma_listed(self)
        requires
            self.wf(),
        ensures
            lists::<R>(self.listed(), self@),
            keyed::<R>(self@),
    {
        assert forall|v: R::V| #[trigger] self.listed().contains(v) <==> self@.contains_key(
            R::key_of(v),
        ) && self@[R::key_of(v)] == v by {
            if self.listed().contains(v) {
                let i = choose|i: int| 0 <= i < self.listed().len() && self.listed()[i] == v;
                self.lemma_found(i, R::key_of(v));
            }
            if self@.contains_key(R::key_of(v)) && self@[R::key_of(v)] == v {
                let i = choose|i: int| self.at(i, R::key_of(v));
                self.lemma_found(i, R::key_of(v));
                assert(self.listed()[i] == v);
            }
        }
        assert forall|i: int, j: int|
            0 <= i < self.listed().len() && 0 <= j < self.listed().len() && i
                != j implies self.listed()[i] != self.listed()[j] by {
            let (x, y) = (self.rows@[i]@, self.rows@[j]@);
            if i < j {
                assert(R::key_of(x) != R::key_of(y));
            } else {
                assert(R::key_of(y) != R::key_of(x));
            }
        }
        assert forall|k: <R::Key as View>::V| #[trigger] self@.contains_key(k) implies R::key_of(
            self@[k],
        ) == k by {
            let i = choose|i: int| self.at(i, k);
            self.lemma_found(i, k);
        }
    }

    proof fn lemma_found(self, i: int, k: <R::Key as View>::V)
        requires
            self.wf(),
            self.at(i, k),
        ensures
            self@.contains_key(k),
            self@[k] == self.rows@[i]@,
    {
        let c = choose|j: int| self.at(j, k);
        assert(self.at(c, k));
        if c != i {
            if c < i {
                assert(R::key_of(self.rows@[c]@) != R::key_of(self.rows@[i]@));
            } else {
                assert(R::key_of(self.rows@[i]@) != R::key_of(self.rows@[c]@));
            }
        }
    }

    /// A table without rows.
    pub fn new() -> (r: Self)
        ensures
            r.wf(),
            r@ == Map::<<R::Key as View>::V, R::V>::empty(),
            r.listed() == Seq::<R::V>::empty(),
    {
        let r = Table { rows: Vec::new() };
        assert(r@ =~= Map::<<R::Key as View>::V, R::V>::empty());
        assert(r.listed() =~= Seq::<R::V>::empty());
        r
    }

    /// How many rows there are.
    pub fn len(&self) -> (n: usize)
        ensures
            n == self.listed().len(),
    {
        self.rows.len()
    }

    /// The row at position `i` of the listing.
    pub fn row(&self, i: usize) -> (r: &R)
        requires
            i < self.listed().len(),
        ensures
            r@ == self.listed()[i as int],
    {
        &self.rows[i]
    }

    fn position(&self, key: &R::Key) -> (r: Option<usize>)
        requires
            self.wf(),
        ensures
            match r {
                Some(i) => self.at(i as int, key@) && self@.contains_key(key@) && self@[key@]
                    == self.rows@[i as int]@,
                None => !self@.contains_key(key@),
            },
    {
        let mut i: usize = 0;
        while i < self.rows.len()
            invariant
                self.wf(),
                i <= self.rows@.len(),
                forall|j: int| 0 <= j < i ==> R::key_of(self.rows@[j]@) != key@,
            decreases self.rows@.len() - i,
        {
            if self.rows[i].has_key(key) {
                proof {
                    self.lemma_found(i as int, key@);
                }
                return Some(i);
            }
            i = i + 1;
        }
        None
    }

    /// The row found by `key`.
    pub fn get(&self, key: &R::Key) -> (r: Option<&R>)
        requires
            self.wf(),
        ensures
            match r {
                Some(row) => self@.contains_key(key@) && row@ == self@[key@],
                None => !self@.contains_key(key@),
            },
    {
        match self.position(key) {
            Some(i) => Some(&self.rows[i]),
            None => None,
        }
    }

    /// Whether there is a row with this key.
    pub fn has(&self, key: &R::Key) -> (r: bool)
        requires
            self.wf(),
        ensures
            r == self@.contains_key(key@),
    {
        self.position(key).is_some()
    }

    /// Puts a row in, in place of the one with its key if there is one.
    pub fn put(&mut self, row: R)
        requires
            old(self).wf(),
        ensures
            final(self).wf(),
            final(self)@ == old(self)@.insert(R::key_of(row@), row@),
            !old(self)@.contains_key(R::key_of(row@)) ==> final(self).listed()
                == old(self).listed().push(row@),
    {
        let ghost before = *self;
        let ghost v = row@;
        let key = row.key();
        match self.position(&key) {
            Some(i) => {
                self.rows.set(i, row);
                proof {
                    assert forall|k: <R::Key as View>::V| self@.contains_key(k)
                        == before@.insert(R::key_of(v), v).contains_key(k) by {
                        if self@.contains_key(k) {
                            let j = choose|j: int| self.at(j, k);
                            before.lemma_found(j, k);
                        }
                        if before@.contains_key(k) {
                            let j = choose|j: int| before.at(j, k);
                            self.lemma_found(j, k);
                        }
                    }
                    assert forall|k: <R::Key as View>::V| self@.contains_key(k) implies self@[k]
                        == before@.insert(R::key_of(v), v)[k] by {
                        let j = choose|j: int| self.at(j, k);
                        self.lemma_found(j, k);
                        before.lemma_found(j, k);
                    }
                    assert(self@ =~= before@.insert(R::key_of(v), v));
                }
            },
            None => {
                self.rows.push(row);
                proof {
                    let n = before.rows@.len() as int;
                    assert forall|i: int, j: int| 0 <= i < j < self.rows@.len() implies R::key_of(
                        self.rows@[i]@,
                    ) != R::key_of(self.rows@[j]@) by {
                        if j == n {
                            if R::key_of(self.rows@[i]@) == R::key_of(v) {
                                before.lemma_found(i, R::key_of(v));
                            }
                        }
                    }
                    assert forall|k: <R::Key as View>::V| self@.contains_key(k)
                        == before@.insert(R::key_of(v), v).contains_key(k) by {
                        if self@.contains_key(k) {
                            let j = choose|j: int| self.at(j, k);
                            if j < n {
                                before.lemma_found(j, k);
                            }
                        }
                        if before@.contains_key(k) {
                            let j = choose|j: int| before.at(j, k);
                            self.lemma_found(j, k);
                        }
                        if k == R::key_of(v) {
                            self.lemma_found(n, k);
                        }
                    }
                    assert forall|k: <R::Key as View>::V| self@.contains_key(k) implies self@[k]
                        == before@.insert(R::key_of(v), v)[k] by {
                        let j = choose|j: int| self.at(j, k);
                        self.lemma_found(j, k);
                        if j < n {
                            before.lemma_found(j, k);
                        }
                    }
                    assert(self@ =~= before@.insert(R::key_of(v), v));
                    assert(self.listed() =~= before.listed().push(v));
                }
            },
        }
    }

    /// Takes the row with this key out, if there is one.
    pub fn remove(&mut self, key: &R::Key)
        requires
            old(self).wf(),
        ensures
            final(self).wf(),
            final(self)@ == old(self)@.remove(key@),
    {
        let ghost before = *self;
        match self.position(key) {
            Some(i) => {
                let _gone = self.rows.remove(i);
                proof {
                    assert forall|k: <R::Key as View>::V| self@.contains_key(k)
                        == before@.remove(key@).contains_key(k) by {
                        if self@.contains_key(k) {
                            let j = choose|j: int| self.at(j, k);
                            let j0 = if j < i { j } else { j + 1 };
                            assert(before.at(j0, k));
                            before.lemma_found(j0, k);
                            if k == key@ {
                                if j0 < i {
                                    assert(R::key_of(before.rows@[j0]@) != R::key_of(
                                        before.rows@[i as int]@,
                                    ));
                                } else {
                                    assert(R::key_of(before.rows@[i as int]@) != R::key_of(
                                        before.rows@[j0]@,
                                    ));
                                }
                            }
                        }
                        if before@.remove(key@).contains_key(k) {
                            let j0 = choose|j: int| before.at(j, k);
                            let j = if j0 < i { j0 } else { j0 - 1 };
                            assert(self.at(j, k));
                            self.lemma_found(j, k);
                        }
                    }
                    assert forall|k: <R::Key as View>::V| self@.contains_key(k) implies self@[k]
                        == before@.remove(key@)[k] by {
                        let j = choose|j: int| self.at(j, k);
                        self.lemma_found(j, k);
                        let j0 = if j < i { j } else { j + 1 };
                        assert(before.at(j0, k));
                        before.lemma_found(j0, k);
                    }
                    assert(self@ =~= before@.remove(key@));
                }
            },
            None => {
                assert(self@ =~= before@.remove(key@));
            },
        }
    }

    /// The table that holds these rows, unless two of them have one key.
    pub fn from_rows(rows: &Vec<R>) -> (r: Option<Self>)
        ensures
            match r {
                Some(t) => {
                    &&& t.wf()
                    &&& t.listed() == rows_view(rows@)
                    &&& t@.dom().finite()
                    &&& !repeats_key::<R>(rows_view(rows@))
                },
                None => repeats_key::<R>(rows_view(rows@)),
            },
    {
        let ghost all = rows_view(rows@);
        let mut t: Table<R> = Table::new();
        let mut i: usize = 0;
        assert(all.take(0) =~= Seq::<R::V>::empty());
        while i < rows.len()
            invariant
                i <= rows@.len(),
                all == rows_view(rows@),
                t.wf(),
                t.listed() == all.take(i as int),
                t@.dom().finite(),
                !repeats_key::<R>(all.take(i as int)),
            decreases rows@.len() - i,
        {
            let ghost prefix = all.take(i as int);
            let key = rows[i].key();
            proof {
                t.lemma_listed();
                assert(all[i as int] == rows@[i as int]@);
                assert(all.take(i + 1) =~= prefix.push(all[i as int]));
            }
            if t.has(&key) {
                proof {
                    assert(prefix.contains(t@[key@]));
                    let j = choose|j: int| 0 <= j < i && prefix[j] == t@[key@];
                    assert(all[j] == prefix[j]);
                    assert(R::key_of(all[j]) == R::key_of(all[i as int]));
                }
                return None;
            }
            t.put(rows[i].copy());
            proof {
                let next = all.take(i + 1);
                if repeats_key::<R>(next) {
                    let (a, b) = choose|a: int, b: int|
                        0 <= a < b < next.len() && R::key_of(next[a]) == R::key_of(next[b]);
                    if b < i {
                        assert(prefix[a] == next[a] && prefix[b] == next[b]);
                    } else {
                        assert(prefix[a] == next[a]);
                        assert(prefix.contains(prefix[a]));
                    }
                }
            }
            i = i + 1;
        }
        assert(all.take(i as int) =~= all);
        Some(t)
    }

    /// Copies of the rows, in their order.
    pub fn to_rows(&self) -> (out: Vec<R>)
        ensures
            rows_view(out@) == self.listed(),
    {
        let mut out: Vec<R> = Vec::new();
        let mut i: usize = 0;
        while i < self.rows.len()
            invariant
                i <= self.rows@.len(),
                out@.len() == i,
                forall|j: int| 0 <= j < i ==> (#[trigger] out@[j])@ == self.rows@[j]@,
            decreases self.rows@.len() - i,
        {
            out.push(self.rows[i].copy());
            i = i + 1;
        }
        assert(rows_view(out@) =~= self.listed());
        out
    }

    /// Copies of the rows that `keep` holds of, in their order.
    pub(crate) fn select<F: Fn(&R) -> bool>(
        &self,
        keep: F,
        Ghost(p): Ghost<spec_fn(R::V) -> bool>,
    ) -> (out: Vec<R>)
        requires
            self.wf(),
            forall|r: &R| #[trigger] keep.requires((r,)),
            forall|r: &R, b: bool| #[trigger] keep.ensures((r,), b) ==> b == p(r@),
        ensures
            lists::<R>(rows_view(out@), selected::<R>(self@, p)),
            forall|v: R::V| rows_view(out@).contains(v) ==> p(v),
    {
        let mut out: Vec<R> = Vec::new();
        let mut i: usize = 0;
        while i < self.rows.len()
            invariant
                i <= self.rows@.len(),
                self.wf(),
                forall|r: &R| #[trigger] keep.requires((r,)),
                forall|r: &R, b: bool| #[trigger] keep.ensures((r,), b) ==> b == p(r@),
                rows_view(out@).no_duplicates(),
                forall|v: R::V| #[trigger]
                    rows_view(out@).contains(v) <==> p(v) && rows_view(self.rows@).take(
                        i as int,
                    ).contains(v),
            decreases self.rows@.len() - i,
        {
            let ghost all = rows_view(self.rows@);
            let ghost v = all[i as int];
            let ghost before = rows_view(out@);
            proof {
                self.lemma_listed();
                assert(!all.take(i as int).contains(v)) by {
                    if all.take(i as int).contains(v) {
                        let j = choose|j: int| 0 <= j < i && all.take(i as int)[j] == v;
                        assert(all[j] == v);
                    }
                }
                assert(all.take(i + 1) =~= all.take(i as int).push(v));
            }
            if keep(&self.rows[i]) {
                out.push(self.rows[i].copy());
                proof {
                    assert(rows_view(out@) =~= before.push(v));
                    lemma_push_contains(before, v);
                }
            }
            proof {
                lemma_push_contains(all.take(i as int), v);
            }
            i = i + 1;
        }
        proof {
            self.lemma_listed();
            assert(rows_view(self.rows@).take(i as int) =~= self.listed());
            let m = selected::<R>(self@, p);
            assert forall|v: R::V| #[trigger]
                rows_view(out@).contains(v) <==> m.contains_key(R::key_of(v)) && m[R::key_of(v)]
                    == v by {
                assert(self.listed().contains(v) <==> self@.contains_key(R::key_of(v))
                    && self@[R::key_of(v)] == v);
            }
        }
        out
    }
}

/// What a sequence holds after a push.
pub proof fn lemma_push_contains<A>(s: Seq<A>, a: A)
    ensures
        forall|v: A| #[trigger] s.push(a).contains(v) <==> s.contains(v) || v == a,
        s.no_duplicates() && !s.contains(a) ==> s.push(a).no_duplicates(),
{
    assert forall|v: A| #[trigger] s.push(a).contains(v) <==> s.contains(v) || v == a by {
        if s.contains(v) {
            let i = choose|i: int| 0 <= i < s.len() && s[i] == v;
            assert(s.push(a)[i] == v);
        }
        if v == a {
            assert(s.push(a)[s.len() as int] == a);
        }
    }
}

// ─── Order ──────────────────────────────────────────────────────────────────

/// An order in which rows are listed.
pub trait Order<T: View> {
    /// `a` has to come before `b`.
    spec fn before(a: T::V, b: T::V) -> bool;

    /// Whether `a` has to come before `b`.
    fn is_before(a: &T, b: &T) -> (r: bool)
        ensures
            r == Self::before(a@, b@),
    ;

    /// Two rows do not each have to come before the other, and rows that may
    /// follow one another may do so at any distance.
    proof fn lemma_order(a: T::V, b: T::V, c: T::V)
        ensures
            Self::before(a, b) ==> !Self::before(b, a),
            !Self::before(b, a) && !Self::before(c, b) ==> !Self::before(c, a),
    ;
}

/// No row of `rows` has to come before one that stands in front of it.
pub open spec fn in_order<T: View, O: Order<T>>(rows: Seq<T::V>) -> bool {
    forall|i: int, j: int| 0 <= i < j < rows.len() ==> !O::before(rows[j], rows[i])
}

/// Puts `rows` in order.
pub fn sort<T: View, O: Order<T>>(rows: Vec<T>) -> (out: Vec<T>)
    ensures
        in_order::<T, O>(rows_view(out@)),
        rows_view(out@).to_multiset() == rows_view(rows@).to_multiset(),
{
    let mut rest: Vec<T> = rows;
    let mut out: Vec<T> = Vec::new();
    let ghost all = rows_view(rest@).to_multiset();
    proof {
        assert(rows_view(out@) =~= Seq::<T::V>::empty());
        rows_view(out@).to_multiset_ensures();
        Seq::<T::V>::empty().to_multiset_ensures();
        assert(rows_view(out@).to_multiset() =~= vstd::multiset::Multiset::<T::V>::empty());
    }
    loop
        invariant
            all == rows_view(rows@).to_multiset(),
            in_order::<T, O>(rows_view(out@)),
            rows_view(out@).to_multiset().add(rows_view(rest@).to_multiset()) =~= all,
        decreases rest@.len(),
    {
        let ghost before = rest@;
        match rest.pop() {
            None => {
                proof {
                    assert(rows_view(rest@) =~= Seq::<T::V>::empty());
                    Seq::<T::V>::empty().to_multiset_ensures();
                    assert(rows_view(rest@).to_multiset()
                        =~= vstd::multiset::Multiset::<T::V>::empty());
                    assert(rows_view(out@).to_multiset() =~= all);
                }
                return out;
            },
            Some(x) => {
                proof {
                    assert(rows_view(before) =~= rows_view(rest@).push(x@));
                    rows_view(rest@).to_multiset_ensures();
                }
                insert_in_order::<T, O>(&mut out, x);
            },
        }
    }
}

/// Puts `x` in front of the first row that does not have to come before it.
fn insert_in_order<T: View, O: Order<T>>(out: &mut Vec<T>, x: T)
    requires
        in_order::<T, O>(rows_view(old(out)@)),
    ensures
        in_order::<T, O>(rows_view(final(out)@)),
        rows_view(final(out)@).to_multiset() == rows_view(old(out)@).to_multiset().insert(x@),
{
    let ghost v = rows_view(out@);
    let mut k: usize = 0;
    while k < out.len() && O::is_before(&out[k], &x)
        invariant
            k <= out@.len(),
            v == rows_view(out@),
            in_order::<T, O>(v),
            forall|j: int| 0 <= j < k ==> O::before(v[j], x@),
        decreases out@.len() - k,
    {
        k = k + 1;
    }
    out.insert(k, x);
    proof {
        let w = rows_view(out@);
        assert(w =~= v.insert(k as int, x@));
        vstd::seq_lib::to_multiset_insert(v, k as int, x@);
        assert forall|i: int, j: int| 0 <= i < j < w.len() implies !O::before(w[j], w[i]) by {
            if i < k && j == k {
                O::lemma_order(w[i], w[j], w[i]);
            } else if i == k {
                assert(w[j] == v[j - 1]);
                assert(!O::before(v[k as int], x@));
                if j > k + 1 {
                    O::lemma_order(x@, v[k as int], v[j - 1]);
                }
            } else {
                let i0 = if i < k { i } else { i - 1 };
                let j0 = if j < k { j } else { j - 1 };
                assert(w[i] == v[i0] && w[j] == v[j0]);
            }
        }
    }
}

/// What lists a map in one order lists it in any.
pub proof fn lemma_rearranged_lists<R: Row>(
    a: Seq<R::V>,
    b: Seq<R::V>,
    map: Map<<R::Key as View>::V, R::V>,
)
    requires
        lists::<R>(a, map),
        a.to_multiset() == b.to_multiset(),
    ensures
        lists::<R>(b, map),
{
    a.lemma_multiset_has_no_duplicates();
    b.lemma_multiset_has_no_duplicates_conv();
    assert forall|v: R::V| #[trigger] b.contains(v) <==> a.contains(v) by {
        vstd::seq_lib::to_multiset_contains(a, v);
        vstd::seq_lib::to_multiset_contains(b, v);
    }
}

}
