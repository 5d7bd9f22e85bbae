use vstd::prelude::*;

verus! {

broadcast use vstd::std_specs::vec::vec_clone_deep_view_proof;

/// A (key, value) pair of a table, as bytes.
pub type Pair = (Seq<u8>, Seq<u8>);

/// The value that the first pair with key `k` holds, if any.
pub open spec fn lookup(t: Seq<Pair>, k: Seq<u8>) -> Option<Seq<u8>>
    decreases t.len(),
{
    if t.len() == 0 {
        None
    } else {
        let r = lookup(t.drop_last(), k);
        if r is Some {
            r
        } else if t.last().0 == k {
            Some(t.last().1)
        } else {
            None
        }
    }
}

/// The pairs of `t` whose key is not `k`, in their order.
pub open spec fn without(t: Seq<Pair>, k: Seq<u8>) -> Seq<Pair>
    decreases t.len(),
{
    if t.len() == 0 {
        t
    } else {
        let w = without(t.drop_last(), k);
        if t.last().0 == k {
            w
        } else {
            w.push(t.last())
        }
    }
}

/// `t` with the pair for `k` set to `v`: every other pair carried over, the
/// new one last.
pub open spec fn with_pair(t: Seq<Pair>, k: Seq<u8>, v: Seq<u8>) -> Seq<Pair> {
    without(t, k).push((k, v))
}

/// Whether some pair of `t` holds the value `v`.
pub open spec fn has_value(t: Seq<Pair>, v: Seq<u8>) -> bool {
    exists|i: int| 0 <= i < t.len() && #[trigger] t[i].1 == v
}

/// The pairs of `colors` whose value some pair of `users` holds.
pub open spec fn used(colors: Seq<Pair>, users: Seq<Pair>) -> Seq<Pair>
    decreases colors.len(),
{
    if colors.len() == 0 {
        colors
    } else {
        let w = used(colors.drop_last(), users);
        if has_value(users, colors.last().1) {
            w.push(colors.last())
        } else {
            w
        }
    }
}

/// The values of `colors` that no pair of `users` holds, each once, in the
/// order of their first pair.
pub open spec fn unused_values(colors: Seq<Pair>, users: Seq<Pair>) -> Seq<Seq<u8>>
    decreases colors.len(),
{
    if colors.len() == 0 {
        Seq::empty()
    } else {
        let w = unused_values(colors.drop_last(), users);
        let v = colors.last().1;
        if has_value(users, v) || w.contains(v) {
            w
        } else {
            w.push(v)
        }
    }
}

/// The contents of each byte string of `vs`.
pub open spec fn byte_views(vs: Seq<Vec<u8>>) -> Seq<Seq<u8>> {
    vs.map_values(|x: Vec<u8>| x@)
}

/// One (key, value) pair of a table.
pub struct Entry {
    pub key: Vec<u8>,
    pub value: Vec<u8>,
}

impl View for Entry {
    type V = Pair;

    open spec fn view(&self) -> Pair {
        (self.key@, self.value@)
    }
}

/// The full contents of one table: its pairs in the order the table holds them.
pub struct Table {
    entries: Vec<Entry>,
}

impl View for Table {
    type V = Seq<Pair>;

    closed spec fn view(&self) -> Seq<Pair> {
        self.entries@.map_values(|e: Entry| e@)
    }
}

fn copy_bytes(v: &Vec<u8>) -> (r: Vec<u8>)
    ensures
        r@ == v@,
{
    let r = v.clone();
    assert(r@ =~= v@);
    r
}

fn same_bytes(a: &Vec<u8>, b: &[u8]) -> (r: bool)
    ensures
        r == (a@ == b@),
{
    if a.len() != b.len() {
        return false;
    }
    let mut i: usize = 0;
    while i < a.len()
        invariant
            a@.len() == b@.len(),
            i <= a@.len(),
            forall|j: int| 0 <= j < i ==> a@[j] == b@[j],
        decreases a@.len() - i,
    {
        if a[i] != b[i] {
            return false;
        }
        i = i + 1;
    }
    assert(a@ =~= b@);
    true
}

proof fn lemma_lookup_prefix(t: Seq<Pair>, j: int, k: Seq<u8>)
    requires
        0 <= j <= t.len(),
        lookup(t.take(j), k) is Some,
    ensures
        lookup(t, k) == lookup(t.take(j), k),
    decreases t.len(),
{
    if j == t.len() {
        assert(t.take(j) =~= t);
    } else {
        assert(t.drop_last().take(j) =~= t.take(j));
        lemma_lookup_prefix(t.drop_last(), j, k);
    }
}

proof fn lemma_lookup_without(t: Seq<Pair>, k: Seq<u8>, k2: Seq<u8>)
    ensures
        lookup(without(t, k), k2) == (if k2 == k {
            None
        } else {
            lookup(t, k2)
        }),
    decreases t.len(),
{
    if t.len() > 0 {
        lemma_lookup_without(t.drop_last(), k, k2);
        let w = without(t.drop_last(), k);
        assert(w.push(t.last()).drop_last() =~= w);
    }
}

/// After the pair for `k` is set to `v`, a lookup of `k` finds `v` and a
/// lookup of any other key finds what it found before.
pub proof fn lemma_with_pair_lookup(t: Seq<Pair>, k: Seq<u8>, v: Seq<u8>, k2: Seq<u8>)
    ensures
        lookup(with_pair(t, k, v), k) == Some(v),
        k2 != k ==> lookup(with_pair(t, k, v), k2) == lookup(t, k2),
{
    let w = without(t, k);
    assert(w.push((k, v)).drop_last() =~= w);
    lemma_lookup_without(t, k, k);
    lemma_lookup_without(t, k, k2);
}

/// After the pair for `k` is removed, a lookup of `k` finds nothing and a
/// lookup of any other key finds what it found before.
pub proof fn lemma_without_lookup(t: Seq<Pair>, k: Seq<u8>, k2: Seq<u8>)
    ensures
        lookup(without(t, k), k) is None,
        k2 != k ==> lookup(without(t, k), k2) == lookup(t, k2),
{
    lemma_lookup_without(t, k, k);
    lemma_lookup_without(t, k, k2);
}

fn has_value_in(t: &Table, v: &Vec<u8>) -> (r: bool)
    ensures
        r == has_value(t@, v@),
{
    let mut i: usize = 0;
    while i < t.len()
        invariant
            i <= t@.len(),
            forall|j: int| 0 <= j < i ==> t@[j].1 != v@,
        decreases t@.len() - i,
    {
        if same_bytes(&t.entry(i).value, v.as_slice()) {
            assert(t@[i as int].1 == v@);
            return true;
        }
        i = i + 1;
    }
    false
}

fn contains_bytes(vs: &Vec<Vec<u8>>, v: &Vec<u8>) -> (r: bool)
    ensures
        r == byte_views(vs@).contains(v@),
{
    let mut i: usize = 0;
    while i < vs.len()
        invariant
            i <= vs@.len(),
            forall|j: int| 0 <= j < i ==> byte_views(vs@)[j] != v@,
        decreases vs@.len() - i,
    {
        if same_bytes(&vs[i], v.as_slice()) {
            assert(byte_views(vs@)[i as int] == v@);
            return true;
        }
        i = i + 1;
    }
    false
}

impl Table {
    /// A table with no pairs.
    pub fn new() -> (r: Table)
        ensures
            r@ == Seq::<Pair>::empty(),
    {
        let r = Table { entries: Vec::new() };
        assert(r@ =~= Seq::<Pair>::empty());
        r
    }

    /// Appends the pair (`key`, `value`).
    pub fn push(&mut self, key: Vec<u8>, value: Vec<u8>)
        ensures
            final(self)@ == old(self)@.push((key@, value@)),
    {
        self.entries.push(Entry { key, value });
        assert(final(self)@ =~= old(self)@.push((key@, value@)));
    }

    /// How many pairs the table holds.
    pub fn len(&self) -> (r: usize)
        ensures
            r == self@.len(),
    {
        self.entries.len()
    }

    /// The pair at position `i`, in the table's order.
    pub fn entry(&self, i: usize) -> (r: &Entry)
        requires
            i < self@.len(),
        ensures
            r@ == self@[i as int],
    {
        &self.entries[i]
    }

    /// The value stored under `key`: that of the first pair with this key.
    pub fn find(&self, key: &[u8]) -> (r: Option<&Vec<u8>>)
        ensures
            r matches Some(v) ==> lookup(self@, key@) == Some(v@),
            r is None ==> lookup(self@, key@) is None,
    {
        let ghost t = self@;
        let mut i: usize = 0;
        while i < self.entries.len()
            invariant
                t == self@,
                i <= t.len(),
                lookup(t.take(i as int), key@) is None,
            decreases t.len() - i,
        {
            if same_bytes(&self.entries[i].key, key) {
                proof {
                    assert(t.take(i as int + 1).drop_last() =~= t.take(i as int));
                    lemma_lookup_prefix(t, i as int + 1, key@);
                }
                return Some(&self.entries[i].value);
            }
            assert(t.take(i as int + 1).drop_last() =~= t.take(i as int));
            i = i + 1;
        }
        assert(t.take(i as int) =~= t);
        None
    }

    /// A new table that holds every pair of this one whose key is not `key`,
    /// in order, and then (`key`, `value`).
    pub fn with_entry(&self, key: &[u8], value: &[u8]) -> (r: Table)
        ensures
            r@ == with_pair(self@, key@, value@),
    {
        let mut r = self.without_key(key);
        let k = vstd::slice::slice_to_vec(key);
        let v = vstd::slice::slice_to_vec(value);
        r.push(k, v);
        r
    }

    /// A new table that holds every pair of this one whose key is not `key`,
    /// in order.
    pub fn without_key(&self, key: &[u8]) -> (r: Table)
        ensures
            r@ == without(self@, key@),
    {
        let ghost t = self@;
        let mut r = Table::new();
        let mut i: usize = 0;
        while i < self.entries.len()
            invariant
                t == self@,
                i <= t.len(),
                r@ == without(t.take(i as int), key@),
            decreases t.len() - i,
        {
            assert(t.take(i as int + 1).drop_last() =~= t.take(i as int));
            let e = &self.entries[i];
            if !same_bytes(&e.key, key) {
                r.push(copy_bytes(&e.key), copy_bytes(&e.value));
            }
            i = i + 1;
        }
        assert(t.take(i as int) =~= t);
        r
    }

    /// The pairs of this table whose value some pair of `users` holds, in
    /// order: the colors that someone still wears.
    pub fn used_by(&self, users: &Table) -> (r: Table)
        ensures
            r@ == used(self@, users@),
    {
        let ghost t = self@;
        let mut r = Table::new();
        let mut i: usize = 0;
        while i < self.entries.len()
            invariant
                t == self@,
                i <= t.len(),
                r@ == used(t.take(i as int), users@),
            decreases t.len() - i,
        {
            assert(t.take(i as int + 1).drop_last() =~= t.take(i as int));
            let e = &self.entries[i];
            if has_value_in(users, &e.value) {
                r.push(copy_bytes(&e.key), copy_bytes(&e.value));
            }
            i = i + 1;
        }
        assert(t.take(i as int) =~= t);
        r
    }

    /// The values of this table that no pair of `users` holds, each once, in
    /// the order of their first pair: the roles that nobody wears.
    pub fn unused_by(&self, users: &Table) -> (r: Vec<Vec<u8>>)
        ensures
            byte_views(r@) == unused_values(self@, users@),
    {
        let ghost t = self@;
        let mut r: Vec<Vec<u8>> = Vec::new();
        let mut i: usize = 0;
        while i < self.entries.len()
            invariant
                t == self@,
                i <= t.len(),
                byte_views(r@) == unused_values(t.take(i as int), users@),
            decreases t.len() - i,
        {
            assert(t.take(i as int + 1).drop_last() =~= t.take(i as int));
            let e = &self.entries[i];
            if !has_value_in(users, &e.value) && !contains_bytes(&r, &e.value) {
                let ghost before = byte_views(r@);
                r.push(copy_bytes(&e.value));
                assert(byte_views(r@) =~= before.push(e.value@));
            }
            i = i + 1;
        }
        assert(t.take(i as int) =~= t);
        r
    }
}

} // verus!
