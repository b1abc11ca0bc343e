//! Lattice value model: the mergeable value types and their merge laws.
//!
//! Four variants are supported: a last-writer-wins byte payload, a set of
//! byte strings, a map whose fields are last-writer-wins payloads, and a
//! counter-like integer merged by addition.  Merge requires the two variants
//! to match; merging across variants is an error, never a silent coercion.

use vstd::prelude::*;

use crate::codec::bytes_eq;
use crate::codec::clone_bytes;
use crate::errors::ClientError;

verus! {

// ---------------------------------------------------------------------------
// Last-writer-wins values
// ---------------------------------------------------------------------------

/// A byte payload tagged with its logical write timestamp and a writer
/// identifier used as a deterministic tiebreak.
#[derive(Debug, PartialEq, Eq)]
pub struct LwwValue {
    /// Logical timestamp of the write; the later one wins a merge.
    pub timestamp: u64,
    /// Identifier of the writing client; breaks timestamp ties.
    pub writer: u64,
    /// The stored bytes.
    pub payload: Vec<u8>,
}

/// Mathematical model of an [`LwwValue`].
pub struct LwwModel {
    /// Logical timestamp of the write.
    pub timestamp: u64,
    /// Identifier of the writing client.
    pub writer: u64,
    /// The stored bytes.
    pub payload: Seq<u8>,
}

impl View for LwwValue {
    type V = LwwModel;

    open spec fn view(&self) -> LwwModel {
        LwwModel { timestamp: self.timestamp, writer: self.writer, payload: self.payload@ }
    }
}

impl LwwValue {
    /// Builds a tagged value.
    pub fn new(timestamp: u64, writer: u64, payload: Vec<u8>) -> (r: LwwValue)
        ensures
            r@ == (LwwModel { timestamp, writer, payload: payload@ }),
    {
        LwwValue { timestamp, writer, payload }
    }
}

/// Strict lexicographic order on byte strings; the final tiebreak that makes
/// the last-writer-wins order total.
pub open spec fn bytes_lt(a: Seq<u8>, b: Seq<u8>) -> bool
    decreases a.len(),
{
    if b.len() == 0 {
        false
    } else if a.len() == 0 {
        true
    } else if a[0] < b[0] {
        true
    } else if a[0] > b[0] {
        false
    } else {
        bytes_lt(a.drop_first(), b.drop_first())
    }
}

/// `bytes_lt` is irreflexive and asymmetric.
pub proof fn lemma_bytes_lt_asymmetric(a: Seq<u8>, b: Seq<u8>)
    ensures
        !(bytes_lt(a, b) && bytes_lt(b, a)),
    decreases a.len(),
{
    if a.len() > 0 && b.len() > 0 && a[0] == b[0] {
        lemma_bytes_lt_asymmetric(a.drop_first(), b.drop_first());
    }
}

/// `bytes_lt` is total: two byte strings that are not ordered either way are
/// equal.
pub proof fn lemma_bytes_lt_connected(a: Seq<u8>, b: Seq<u8>)
    requires
        !bytes_lt(a, b),
        !bytes_lt(b, a),
    ensures
        a == b,
    decreases a.len(),
{
    if a.len() == 0 && b.len() == 0 {
        assert(a =~= b);
    } else {
        lemma_bytes_lt_connected(a.drop_first(), b.drop_first());
        assert(a =~= seq![a[0]] + a.drop_first());
        assert(b =~= seq![b[0]] + b.drop_first());
    }
}

/// `bytes_lt` is transitive.
pub proof fn lemma_bytes_lt_transitive(a: Seq<u8>, b: Seq<u8>, c: Seq<u8>)
    requires
        bytes_lt(a, b),
        bytes_lt(b, c),
    ensures
        bytes_lt(a, c),
    decreases a.len(),
{
    if a.len() > 0 && b.len() > 0 && c.len() > 0 && a[0] == b[0] && b[0] == c[0] {
        lemma_bytes_lt_transitive(a.drop_first(), b.drop_first(), c.drop_first());
    }
}

/// The total order that decides a last-writer-wins merge: later timestamp
/// wins; ties go to the greater writer identifier, then to the
/// lexicographically greater payload.
pub open spec fn lww_lt(a: LwwModel, b: LwwModel) -> bool {
    ||| a.timestamp < b.timestamp
    ||| (a.timestamp == b.timestamp && a.writer < b.writer)
    ||| (a.timestamp == b.timestamp && a.writer == b.writer && bytes_lt(a.payload, b.payload))
}

/// The last-writer-wins merge keeps the greater value under [`lww_lt`].
pub open spec fn lww_merge_model(a: LwwModel, b: LwwModel) -> LwwModel {
    if lww_lt(a, b) {
        b
    } else {
        a
    }
}

/// Compares two byte vectors in strict lexicographic order.
pub fn bytes_less(a: &Vec<u8>, b: &Vec<u8>) -> (r: bool)
    ensures
        r == bytes_lt(a@, b@),
{
    let n: usize = if a.len() < b.len() {
        a.len()
    } else {
        b.len()
    };
    let mut i: usize = 0;
    proof {
        assert(a@.skip(0) =~= a@);
        assert(b@.skip(0) =~= b@);
    }
    while i < n
        invariant
            0 <= i <= n,
            n == if a@.len() < b@.len() {
                a@.len()
            } else {
                b@.len()
            },
            forall|j: int| 0 <= j < i ==> a@[j] == b@[j],
            bytes_lt(a@, b@) == bytes_lt(a@.skip(i as int), b@.skip(i as int)),
        decreases n - i,
    {
        proof {
            assert(a@.skip(i as int).drop_first() =~= a@.skip(i + 1));
            assert(b@.skip(i as int).drop_first() =~= b@.skip(i + 1));
        }
        if a[i] < b[i] {
            return true;
        }
        if a[i] > b[i] {
            return false;
        }
        i += 1;
    }
    proof {
        assert(a@.skip(i as int).len() == a@.len() - i);
        assert(b@.skip(i as int).len() == b@.len() - i);
    }
    a.len() < b.len()
}

/// Merges two last-writer-wins values, keeping the one that wins the total
/// order.
pub fn lww_merge(a: LwwValue, b: LwwValue) -> (r: LwwValue)
    ensures
        r@ == lww_merge_model(a@, b@),
{
    if a.timestamp < b.timestamp {
        b
    } else if a.timestamp > b.timestamp {
        a
    } else if a.writer < b.writer {
        b
    } else if a.writer > b.writer {
        a
    } else if bytes_less(&a.payload, &b.payload) {
        b
    } else {
        a
    }
}

/// Two values unordered either way under [`lww_lt`] are equal: the order is
/// total.
pub proof fn lemma_lww_lt_connected(a: LwwModel, b: LwwModel)
    ensures
        !lww_lt(a, b) && !lww_lt(b, a) ==> a == b,
{
    if !lww_lt(a, b) && !lww_lt(b, a) {
        lemma_bytes_lt_connected(a.payload, b.payload);
    }
}

/// [`lww_lt`] is asymmetric.
pub proof fn lemma_lww_lt_asymmetric(a: LwwModel, b: LwwModel)
    ensures
        !(lww_lt(a, b) && lww_lt(b, a)),
{
    lemma_bytes_lt_asymmetric(a.payload, b.payload);
}

/// [`lww_lt`] is transitive.
pub proof fn lemma_lww_lt_transitive(a: LwwModel, b: LwwModel, c: LwwModel)
    ensures
        lww_lt(a, b) && lww_lt(b, c) ==> lww_lt(a, c),
{
    if lww_lt(a, b) && lww_lt(b, c) {
        if a.timestamp == b.timestamp && b.timestamp == c.timestamp && a.writer == b.writer
            && b.writer == c.writer {
            lemma_bytes_lt_transitive(a.payload, b.payload, c.payload);
        }
    }
}

/// Last-writer-wins merge is commutative: for any two timestamp-tagged
/// values, including values with equal timestamps, both argument orders give
/// the same result.
pub proof fn lemma_lww_merge_commutative(a: LwwModel, b: LwwModel)
    ensures
        lww_merge_model(a, b) == lww_merge_model(b, a),
{
    lemma_lww_lt_connected(a, b);
    lemma_lww_lt_asymmetric(a, b);
}

/// Last-writer-wins merge is associative.
pub proof fn lemma_lww_merge_associative(a: LwwModel, b: LwwModel, c: LwwModel)
    ensures
        lww_merge_model(lww_merge_model(a, b), c) == lww_merge_model(a, lww_merge_model(b, c)),
{
    lemma_lww_lt_connected(a, b);
    lemma_lww_lt_connected(b, c);
    lemma_lww_lt_connected(a, c);
    lemma_lww_lt_transitive(a, b, c);
    lemma_lww_lt_transitive(b, a, c);
    lemma_lww_lt_transitive(c, a, b);
    lemma_lww_lt_transitive(b, c, a);
    lemma_lww_lt_transitive(a, c, b);
    lemma_lww_lt_transitive(c, b, a);
}

/// Last-writer-wins merge is idempotent: merging a value with itself
/// changes nothing.
pub proof fn lemma_lww_merge_idempotent(a: LwwModel)
    ensures
        lww_merge_model(a, a) == a,
{
    lemma_lww_lt_asymmetric(a, a);
}

/// Copies a last-writer-wins value.
pub fn clone_lww(v: &LwwValue) -> (r: LwwValue)
    ensures
        r@ == v@,
{
    LwwValue { timestamp: v.timestamp, writer: v.writer, payload: clone_bytes(&v.payload) }
}

// ---------------------------------------------------------------------------
// Sets of byte strings
// ---------------------------------------------------------------------------

/// A set of byte strings, merged by union.
#[derive(Debug, PartialEq, Eq)]
pub struct SetValue {
    /// The members, each listed once.
    pub elems: Vec<Vec<u8>>,
}

/// The set of byte strings named by the first `n` entries of `s`.
pub open spec fn byte_set_of_prefix(s: Seq<Vec<u8>>, n: int) -> Set<Seq<u8>> {
    Set::new(|x: Seq<u8>| exists|i: int| 0 <= i < n && s[i]@ == x)
}

impl View for SetValue {
    type V = Set<Seq<u8>>;

    open spec fn view(&self) -> Set<Seq<u8>> {
        byte_set_of_prefix(self.elems@, self.elems@.len() as int)
    }
}

impl SetValue {
    /// Each member is listed exactly once.
    pub open spec fn wf(&self) -> bool {
        forall|i: int, j: int|
            0 <= i < j < self.elems@.len() ==> self.elems@[i]@ != self.elems@[j]@
    }

    /// The empty set.
    pub fn empty() -> (r: SetValue)
        ensures
            r.wf(),
            r@ == Set::<Seq<u8>>::empty(),
    {
        let r = SetValue { elems: Vec::new() };
        proof {
            assert(r@ =~= Set::<Seq<u8>>::empty());
        }
        r
    }

    /// Whether the set holds the given byte string.
    pub fn contains_bytes(&self, x: &Vec<u8>) -> (r: bool)
        ensures
            r == self@.contains(x@),
    {
        let mut i: usize = 0;
        while i < self.elems.len()
            invariant
                0 <= i <= self.elems@.len(),
                forall|j: int| 0 <= j < i ==> self.elems@[j]@ != x@,
            decreases self.elems@.len() - i,
        {
            if bytes_eq(&self.elems[i], x) {
                return true;
            }
            i += 1;
        }
        false
    }

    /// Adds a byte string; a member that is already present is not listed a
    /// second time.
    pub fn insert(&mut self, x: Vec<u8>)
        requires
            old(self).wf(),
        ensures
            final(self).wf(),
            final(self)@ == old(self)@.insert(x@),
    {
        let present = self.contains_bytes(&x);
        let ghost pre = self.elems@;
        if !present {
            self.elems.push(x);
        }
        proof {
            if present {
                assert(self@ =~= byte_set_of_prefix(pre, pre.len() as int).insert(x@));
            } else {
                assert forall|y: Seq<u8>| self@.contains(y) implies byte_set_of_prefix(
                    pre,
                    pre.len() as int,
                ).insert(x@).contains(y) by {
                    let i = choose|i: int| 0 <= i < self.elems@.len() && self.elems@[i]@ == y;
                    if i < pre.len() {
                        assert(pre[i]@ == y);
                    }
                }
                assert forall|y: Seq<u8>|
                    byte_set_of_prefix(pre, pre.len() as int).insert(x@).contains(y) implies self@
                    .contains(y) by {
                    if y == x@ {
                        assert(self.elems@[pre.len() as int]@ == y);
                    } else {
                        let i = choose|i: int| 0 <= i < pre.len() && pre[i]@ == y;
                        assert(self.elems@[i]@ == y);
                    }
                }
                assert(self@ =~= byte_set_of_prefix(pre, pre.len() as int).insert(x@));
            }
        }
    }

    /// The number of members.
    pub fn len(&self) -> (n: usize)
        requires
            self.wf(),
        ensures
            n == self.elems@.len(),
            n == self@.len(),
    {
        proof {
            self.lemma_view_len();
        }
        self.elems.len()
    }

    /// With each member listed once, the mathematical cardinality equals the
    /// list length.
    pub proof fn lemma_view_len(&self)
        requires
            self.wf(),
        ensures
            self@.len() == self.elems@.len(),
            self@.finite(),
    {
        lemma_distinct_prefix_card(self.elems@, self.elems@.len() as int);
    }
}

/// With the listed byte strings pairwise distinct, the set named by a prefix
/// has as many members as the prefix has entries.
pub proof fn lemma_distinct_prefix_card(s: Seq<Vec<u8>>, n: int)
    requires
        forall|i: int, j: int| 0 <= i < j < s.len() ==> s[i]@ != s[j]@,
        0 <= n <= s.len(),
    ensures
        byte_set_of_prefix(s, n).finite(),
        byte_set_of_prefix(s, n).len() == n,
    decreases n,
{
    if n == 0 {
        assert(byte_set_of_prefix(s, 0) =~= Set::<Seq<u8>>::empty());
    } else {
        lemma_distinct_prefix_card(s, n - 1);
        assert forall|y: Seq<u8>| byte_set_of_prefix(s, n).contains(y) implies byte_set_of_prefix(
            s,
            n - 1,
        ).insert(s[n - 1]@).contains(y) by {
            let i = choose|i: int| 0 <= i < n && s[i]@ == y;
            if i < n - 1 {
                assert(byte_set_of_prefix(s, n - 1).contains(y));
            }
        }
        assert(byte_set_of_prefix(s, n) =~= byte_set_of_prefix(s, n - 1).insert(s[n - 1]@));
        assert(!byte_set_of_prefix(s, n - 1).contains(s[n - 1]@));
    }
}

/// Set merge is plain set union.
pub open spec fn set_merge_model(a: Set<Seq<u8>>, b: Set<Seq<u8>>) -> Set<Seq<u8>> {
    a.union(b)
}

/// Set-variant merge equals set union, in either argument order.
pub proof fn lemma_set_merge_is_union(a: Set<Seq<u8>>, b: Set<Seq<u8>>)
    ensures
        set_merge_model(a, b) == a.union(b),
        set_merge_model(b, a) == a.union(b),
{
    assert(b.union(a) =~= a.union(b));
}

/// Set merge is idempotent.
pub proof fn lemma_set_merge_idempotent(a: Set<Seq<u8>>)
    ensures
        set_merge_model(a, a) == a,
{
    assert(a.union(a) =~= a);
}

/// Merges two sets by union.
pub fn set_merge(a: SetValue, b: SetValue) -> (r: SetValue)
    requires
        a.wf(),
        b.wf(),
    ensures
        r.wf(),
        r@ == set_merge_model(a@, b@),
{
    let ghost a0 = a@;
    let mut r = a;
    let mut i: usize = 0;
    while i < b.elems.len()
        invariant
            0 <= i <= b.elems@.len(),
            r.wf(),
            r@ == a0.union(byte_set_of_prefix(b.elems@, i as int)),
        decreases b.elems@.len() - i,
    {
        let ghost before = r@;
        let x = clone_bytes(&b.elems[i]);
        r.insert(x);
        proof {
            assert forall|y: Seq<u8>| byte_set_of_prefix(b.elems@, i + 1).contains(y) implies
                byte_set_of_prefix(b.elems@, i as int).insert(b.elems@[i as int]@).contains(y) by {
                let t = choose|t: int| 0 <= t < i + 1 && b.elems@[t]@ == y;
                if t < i {
                    assert(byte_set_of_prefix(b.elems@, i as int).contains(y));
                }
            }
            assert(byte_set_of_prefix(b.elems@, i + 1) =~= byte_set_of_prefix(
                b.elems@,
                i as int,
            ).insert(b.elems@[i as int]@));
            assert(r@ =~= a0.union(byte_set_of_prefix(b.elems@, i + 1)));
        }
        i += 1;
    }
    proof {
        assert(byte_set_of_prefix(b.elems@, i as int) =~= b@);
        assert(r@ =~= set_merge_model(a0, b@));
    }
    r
}

// ---------------------------------------------------------------------------
// Maps whose fields are last-writer-wins values
// ---------------------------------------------------------------------------

/// A map from byte-string fields to last-writer-wins values; merged key-wise,
/// with the later timestamp winning per field.
#[derive(Debug, PartialEq, Eq)]
pub struct MapValue {
    /// The fields, each listed once.
    pub entries: Vec<(Vec<u8>, LwwValue)>,
}

/// Whether some entry among the first `n` carries the field `k`.
pub open spec fn map_has_key_in_prefix(s: Seq<(Vec<u8>, LwwValue)>, n: int, k: Seq<u8>) -> bool {
    exists|i: int| 0 <= i < n && s[i].0@ == k
}

/// The map named by an entry list.
pub open spec fn entries_view(s: Seq<(Vec<u8>, LwwValue)>) -> Map<Seq<u8>, LwwModel> {
    Map::new(
        |k: Seq<u8>| map_has_key_in_prefix(s, s.len() as int, k),
        |k: Seq<u8>|
            {
                let i = choose|i: int| 0 <= i < s.len() && s[i].0@ == k;
                s[i].1@
            },
    )
}

/// Each field of an entry list is listed exactly once.
pub open spec fn entries_wf(s: Seq<(Vec<u8>, LwwValue)>) -> bool {
    forall|i: int, j: int| 0 <= i < j < s.len() ==> s[i].0@ != s[j].0@
}

/// A listed entry is what the entry list's map returns for its field.
pub proof fn lemma_entries_lookup(s: Seq<(Vec<u8>, LwwValue)>, i: int)
    requires
        entries_wf(s),
        0 <= i < s.len(),
    ensures
        entries_view(s).dom().contains(s[i].0@),
        entries_view(s)[s[i].0@] == s[i].1@,
{
    let k = s[i].0@;
    assert(map_has_key_in_prefix(s, s.len() as int, k));
    let j = choose|j: int| 0 <= j < s.len() && s[j].0@ == k;
    assert(j == i);
}

impl View for MapValue {
    type V = Map<Seq<u8>, LwwModel>;

    open spec fn view(&self) -> Map<Seq<u8>, LwwModel> {
        entries_view(self.entries@)
    }
}

impl MapValue {
    /// Each field is listed exactly once.
    pub open spec fn wf(&self) -> bool {
        entries_wf(self.entries@)
    }

    /// The empty map.
    pub fn empty() -> (r: MapValue)
        ensures
            r.wf(),
            r@ == Map::<Seq<u8>, LwwModel>::empty(),
    {
        let r = MapValue { entries: Vec::new() };
        proof {
            assert(r@ =~= Map::<Seq<u8>, LwwModel>::empty());
        }
        r
    }

    /// The entry at a listed index is what the map view returns for its field.
    pub proof fn lemma_entry_lookup(&self, i: int)
        requires
            self.wf(),
            0 <= i < self.entries@.len(),
        ensures
            self@.dom().contains(self.entries@[i].0@),
            self@[self.entries@[i].0@] == self.entries@[i].1@,
    {
        lemma_entries_lookup(self.entries@, i);
    }

    /// Finds the index of the entry carrying the given field, if any.
    pub fn find_field(&self, k: &Vec<u8>) -> (r: Option<usize>)
        requires
            self.wf(),
        ensures
            match r {
                Some(i) => i < self.entries@.len() && self.entries@[i as int].0@ == k@
                    && self@.dom().contains(k@) && self@[k@] == self.entries@[i as int].1@,
                None => !self@.dom().contains(k@),
            },
    {
        let mut i: usize = 0;
        while i < self.entries.len()
            invariant
                self.wf(),
                0 <= i <= self.entries@.len(),
                forall|j: int| 0 <= j < i ==> self.entries@[j].0@ != k@,
            decreases self.entries@.len() - i,
        {
            if bytes_eq(&self.entries[i].0, k) {
                proof {
                    self.lemma_entry_lookup(i as int);
                }
                return Some(i);
            }
            i += 1;
        }
        None
    }

    /// Binds a field to a value, replacing any previous binding.
    pub fn upsert(&mut self, k: Vec<u8>, v: LwwValue)
        requires
            old(self).wf(),
        ensures
            final(self).wf(),
            final(self)@ == old(self)@.insert(k@, v@),
    {
        let found = self.find_field(&k);
        let ghost pre = self.entries@;
        match found {
            Some(i) => {
                self.entries.set(i, (k, v));
                proof {
                    let ghost post = self.entries@;
                    assert forall|q: Seq<u8>| #[trigger] self@.dom().contains(q) implies
                        entries_view(pre).insert(post[i as int].0@, v@).dom().contains(q) by {
                        let t = choose|t: int| 0 <= t < post.len() && post[t].0@ == q;
                        if t != i {
                            assert(pre[t].0@ == q);
                        }
                    }
                    assert forall|q: Seq<u8>|
                        #[trigger] entries_view(pre).insert(
                            post[i as int].0@,
                            v@,
                        ).dom().contains(q) implies self@.dom().contains(q) by {
                        if q == post[i as int].0@ {
                            assert(post[i as int].0@ == q);
                        } else {
                            let t = choose|t: int| 0 <= t < pre.len() && pre[t].0@ == q;
                            assert(post[t].0@ == q);
                        }
                    }
                    assert forall|q: Seq<u8>| #[trigger] self@.dom().contains(q) implies self@[q]
                        == entries_view(pre).insert(post[i as int].0@, v@)[q] by {
                        let t = choose|t: int| 0 <= t < post.len() && post[t].0@ == q;
                        lemma_entries_lookup(post, t);
                        if t != i {
                            assert(pre[t].0@ == q);
                            lemma_entries_lookup(pre, t);
                        }
                    }
                    assert(self@ =~= entries_view(pre).insert(post[i as int].0@, v@));
                }
            },
            None => {
                self.entries.push((k, v));
                proof {
                    let ghost post = self.entries@;
                    let n = pre.len() as int;
                    assert forall|q: Seq<u8>| #[trigger] self@.dom().contains(q) implies
                        entries_view(pre).insert(post[n].0@, v@).dom().contains(q) by {
                        let t = choose|t: int| 0 <= t < post.len() && post[t].0@ == q;
                        if t < n {
                            assert(pre[t].0@ == q);
                        }
                    }
                    assert forall|q: Seq<u8>|
                        #[trigger] entries_view(pre).insert(
                            post[n].0@,
                            v@,
                        ).dom().contains(q) implies self@.dom().contains(q) by {
                        if q == post[n].0@ {
                            assert(post[n].0@ == q);
                        } else {
                            let t = choose|t: int| 0 <= t < pre.len() && pre[t].0@ == q;
                            assert(post[t].0@ == q);
                        }
                    }
                    assert forall|q: Seq<u8>| #[trigger] self@.dom().contains(q) implies self@[q]
                        == entries_view(pre).insert(post[n].0@, v@)[q] by {
                        let t = choose|t: int| 0 <= t < post.len() && post[t].0@ == q;
                        lemma_entries_lookup(post, t);
                        if t < n {
                            assert(pre[t].0@ == q);
                            lemma_entries_lookup(pre, t);
                        }
                    }
                    assert(self@ =~= entries_view(pre).insert(post[n].0@, v@));
                }
            },
        }
    }
}

/// The map bound by the first `n` entries of `s`, later entries overriding
/// earlier ones.
pub open spec fn map_of_prefix(s: Seq<(Vec<u8>, LwwValue)>, n: int) -> Map<Seq<u8>, LwwModel>
    decreases n,
{
    if n <= 0 {
        Map::empty()
    } else {
        map_of_prefix(s, n - 1).insert(s[n - 1].0@, s[n - 1].1@)
    }
}

/// On a well-formed entry list the prefix fold binds exactly the listed
/// fields, each to its listed value.
pub proof fn lemma_map_of_prefix_full(s: Seq<(Vec<u8>, LwwValue)>, n: int)
    requires
        entries_wf(s),
        0 <= n <= s.len(),
    ensures
        forall|k: Seq<u8>|
            #[trigger] map_of_prefix(s, n).dom().contains(k) <==> map_has_key_in_prefix(s, n, k),
        forall|i: int| 0 <= i < n ==> map_of_prefix(s, n)[#[trigger] s[i].0@] == s[i].1@,
    decreases n,
{
    if n > 0 {
        lemma_map_of_prefix_full(s, n - 1);
        assert forall|k: Seq<u8>| map_has_key_in_prefix(s, n, k) implies #[trigger] map_of_prefix(
            s,
            n,
        ).dom().contains(k) by {
            let t = choose|t: int| 0 <= t < n && s[t].0@ == k;
            if t < n - 1 {
                assert(map_has_key_in_prefix(s, n - 1, k));
            }
        }
        assert forall|k: Seq<u8>| #[trigger] map_of_prefix(s, n).dom().contains(k) implies
            map_has_key_in_prefix(s, n, k) by {
            lemma_map_of_prefix_keys(s, n, k);
        }
    }
}

/// Key-wise merge of two field maps: the union of the fields, the
/// last-writer-wins merge deciding fields present on both sides.
pub open spec fn map_merge_model(
    a: Map<Seq<u8>, LwwModel>,
    b: Map<Seq<u8>, LwwModel>,
) -> Map<Seq<u8>, LwwModel> {
    Map::new(
        |k: Seq<u8>| a.dom().contains(k) || b.dom().contains(k),
        |k: Seq<u8>|
            if a.dom().contains(k) && b.dom().contains(k) {
                lww_merge_model(a[k], b[k])
            } else if b.dom().contains(k) {
                b[k]
            } else {
                a[k]
            },
    )
}

/// Map-variant merge is key-wise union with the later timestamp winning per
/// key on conflict.
pub proof fn lemma_map_merge_keywise(a: Map<Seq<u8>, LwwModel>, b: Map<Seq<u8>, LwwModel>, k: Seq<u8>)
    ensures
        map_merge_model(a, b).dom().contains(k) <==> (a.dom().contains(k) || b.dom().contains(k)),
        a.dom().contains(k) && b.dom().contains(k) ==> map_merge_model(a, b)[k] == lww_merge_model(
            a[k],
            b[k],
        ),
        a.dom().contains(k) && !b.dom().contains(k) ==> map_merge_model(a, b)[k] == a[k],
        !a.dom().contains(k) && b.dom().contains(k) ==> map_merge_model(a, b)[k] == b[k],
{
}

/// Map merge is idempotent: each field merges with itself by the
/// last-writer-wins law, which keeps it.
pub proof fn lemma_map_merge_idempotent(a: Map<Seq<u8>, LwwModel>)
    ensures
        map_merge_model(a, a) == a,
{
    assert forall|k: Seq<u8>| #[trigger] a.dom().contains(k) implies map_merge_model(a, a)[k]
        == a[k] by {
        lemma_lww_merge_idempotent(a[k]);
    }
    assert(map_merge_model(a, a) =~= a);
}

/// Merges two field maps key-wise.
pub fn map_merge(a: MapValue, b: MapValue) -> (r: MapValue)
    requires
        a.wf(),
        b.wf(),
    ensures
        r.wf(),
        r@ == map_merge_model(a@, b@),
{
    let ghost a0 = a@;
    let mut r = a;
    let mut j: usize = 0;
    while j < b.entries.len()
        invariant
            0 <= j <= b.entries@.len(),
            b.wf(),
            r.wf(),
            r@ == map_merge_model(a0, map_of_prefix(b.entries@, j as int)),
        decreases b.entries@.len() - j,
    {
        let ghost before = r@;
        let ghost pm = map_of_prefix(b.entries@, j as int);
        let k = clone_bytes(&b.entries[j].0);
        let vb = clone_lww(&b.entries[j].1);
        let found = r.find_field(&k);
        match found {
            Some(i) => {
                let va = clone_lww(&r.entries[i].1);
                let merged = lww_merge(va, vb);
                r.upsert(k, merged);
            },
            None => {
                r.upsert(k, vb);
            },
        }
        proof {
            let kk = b.entries@[j as int].0@;
            let vv = b.entries@[j as int].1@;
            assert(map_of_prefix(b.entries@, j + 1) == pm.insert(kk, vv));
            assert forall|t: int| 0 <= t < j implies b.entries@[t].0@ != kk by {}
            assert forall|q: Seq<u8>| pm.dom().contains(q) implies map_has_key_in_prefix(
                b.entries@,
                j as int,
                q,
            ) by {
                lemma_map_of_prefix_keys(b.entries@, j as int, q);
            }
            assert(!pm.dom().contains(kk));
            assert(r@ =~= map_merge_model(a0, pm.insert(kk, vv)));
        }
        j += 1;
    }
    proof {
        let bs = b.entries@;
        let n = bs.len() as int;
        lemma_map_of_prefix_full(bs, n);
        assert forall|k: Seq<u8>| #[trigger] map_of_prefix(bs, n).dom().contains(k) implies
            map_of_prefix(bs, n)[k] == b@[k] by {
            let t = choose|t: int| 0 <= t < n && bs[t].0@ == k;
            lemma_entries_lookup(bs, t);
        }
        assert(map_of_prefix(bs, n) =~= b@);
        assert(r@ =~= map_merge_model(a0, b@));
    }
    r
}

/// A field bound somewhere in the prefix fold was listed in that prefix.
pub proof fn lemma_map_of_prefix_keys(s: Seq<(Vec<u8>, LwwValue)>, n: int, q: Seq<u8>)
    requires
        map_of_prefix(s, n).dom().contains(q),
    ensures
        map_has_key_in_prefix(s, n, q),
    decreases n,
{
    if n > 0 {
        if q != s[n - 1].0@ {
            lemma_map_of_prefix_keys(s, n - 1, q);
            let t = choose|t: int| 0 <= t < n - 1 && s[t].0@ == q;
            assert(0 <= t < n && s[t].0@ == q);
        }
    }
}

// ---------------------------------------------------------------------------
// Counters
// ---------------------------------------------------------------------------

/// Counter merge is addition modulo the machine integer width, so a sequence
/// of increments folds into one increment by the summed delta.
pub open spec fn int_merge_model(a: i64, b: i64) -> i64 {
    vstd::wrapping::i64_specs::wrapping_add(a, b)
}

/// Merges two counter deltas by addition.
pub fn int_merge(a: i64, b: i64) -> (r: i64)
    ensures
        r == int_merge_model(a, b),
{
    a.wrapping_add(b)
}

/// Counter increment is associative: applying deltas `a` then `b` to a stored
/// counter yields the same value as applying their sum once.
pub proof fn lemma_counter_merge_associative(s: i64, a: i64, b: i64)
    ensures
        int_merge_model(int_merge_model(s, a), b) == int_merge_model(s, int_merge_model(a, b)),
{
}

/// Counter merge is commutative.
pub proof fn lemma_counter_merge_commutative(a: i64, b: i64)
    ensures
        int_merge_model(a, b) == int_merge_model(b, a),
{
}

// ---------------------------------------------------------------------------
// Plain field maps, as they ride on the wire
// ---------------------------------------------------------------------------

/// A map from byte-string fields to plain byte payloads, with no timestamps:
/// the shape in which map values enter and leave the client.
#[derive(Debug, PartialEq, Eq)]
pub struct PlainMapValue {
    /// The fields, each listed once.
    pub entries: Vec<(Vec<u8>, Vec<u8>)>,
}

/// Whether some entry among the first `n` carries the field `k`.
pub open spec fn plain_has_key_in_prefix(s: Seq<(Vec<u8>, Vec<u8>)>, n: int, k: Seq<u8>) -> bool {
    exists|i: int| 0 <= i < n && s[i].0@ == k
}

/// The map named by a plain entry list.
pub open spec fn plain_entries_view(s: Seq<(Vec<u8>, Vec<u8>)>) -> Map<Seq<u8>, Seq<u8>> {
    Map::new(
        |k: Seq<u8>| plain_has_key_in_prefix(s, s.len() as int, k),
        |k: Seq<u8>|
            {
                let i = choose|i: int| 0 <= i < s.len() && s[i].0@ == k;
                s[i].1@
            },
    )
}

/// Each field of a plain entry list is listed exactly once.
pub open spec fn plain_entries_wf(s: Seq<(Vec<u8>, Vec<u8>)>) -> bool {
    forall|i: int, j: int| 0 <= i < j < s.len() ==> s[i].0@ != s[j].0@
}

/// A listed entry is what the plain entry list's map returns for its field.
pub proof fn lemma_plain_entries_lookup(s: Seq<(Vec<u8>, Vec<u8>)>, i: int)
    requires
        plain_entries_wf(s),
        0 <= i < s.len(),
    ensures
        plain_entries_view(s).dom().contains(s[i].0@),
        plain_entries_view(s)[s[i].0@] == s[i].1@,
{
    let k = s[i].0@;
    assert(plain_has_key_in_prefix(s, s.len() as int, k));
    let j = choose|j: int| 0 <= j < s.len() && s[j].0@ == k;
    assert(j == i);
}

impl View for PlainMapValue {
    type V = Map<Seq<u8>, Seq<u8>>;

    open spec fn view(&self) -> Map<Seq<u8>, Seq<u8>> {
        plain_entries_view(self.entries@)
    }
}

impl PlainMapValue {
    /// Each field is listed exactly once.
    pub open spec fn wf(&self) -> bool {
        plain_entries_wf(self.entries@)
    }

    /// The empty map.
    pub fn empty() -> (r: PlainMapValue)
        ensures
            r.wf(),
            r@ == Map::<Seq<u8>, Seq<u8>>::empty(),
    {
        let r = PlainMapValue { entries: Vec::new() };
        proof {
            assert(r@ =~= Map::<Seq<u8>, Seq<u8>>::empty());
        }
        r
    }

    /// Finds the index of the entry carrying the given field, if any.
    pub fn find_field(&self, k: &Vec<u8>) -> (r: Option<usize>)
        requires
            self.wf(),
        ensures
            match r {
                Some(i) => i < self.entries@.len() && self.entries@[i as int].0@ == k@
                    && self@.dom().contains(k@) && self@[k@] == self.entries@[i as int].1@,
                None => !self@.dom().contains(k@),
            },
    {
        let mut i: usize = 0;
        while i < self.entries.len()
            invariant
                self.wf(),
                0 <= i <= self.entries@.len(),
                forall|j: int| 0 <= j < i ==> self.entries@[j].0@ != k@,
            decreases self.entries@.len() - i,
        {
            if bytes_eq(&self.entries[i].0, k) {
                proof {
                    lemma_plain_entries_lookup(self.entries@, i as int);
                }
                return Some(i);
            }
            i += 1;
        }
        None
    }
}

/// Tags each field of a plain map with one timestamp and writer, producing
/// the lattice map the storage layer merges.
pub fn tag_fields(m: &PlainMapValue, timestamp: u64, writer: u64) -> (r: MapValue)
    requires
        m.wf(),
    ensures
        r.wf(),
        r@.dom() == m@.dom(),
        forall|k: Seq<u8>|
            #[trigger] m@.dom().contains(k) ==> r@[k] == (LwwModel {
                timestamp,
                writer,
                payload: m@[k],
            }),
{
    let mut out: Vec<(Vec<u8>, LwwValue)> = Vec::new();
    let mut i: usize = 0;
    while i < m.entries.len()
        invariant
            m.wf(),
            0 <= i <= m.entries@.len(),
            out@.len() == i,
            forall|t: int|
                0 <= t < i ==> out@[t].0@ == m.entries@[t].0@ && out@[t].1@ == (LwwModel {
                    timestamp,
                    writer,
                    payload: m.entries@[t].1@,
                }),
        decreases m.entries@.len() - i,
    {
        let k = clone_bytes(&m.entries[i].0);
        let v = LwwValue::new(timestamp, writer, clone_bytes(&m.entries[i].1));
        out.push((k, v));
        i += 1;
    }
    let r = MapValue { entries: out };
    proof {
        assert forall|k: Seq<u8>| #[trigger] r@.dom().contains(k) implies m@.dom().contains(k) by {
            let t = choose|t: int| 0 <= t < r.entries@.len() && r.entries@[t].0@ == k;
            assert(m.entries@[t].0@ == k);
        }
        assert forall|k: Seq<u8>| #[trigger] m@.dom().contains(k) implies r@.dom().contains(k) by {
            let t = choose|t: int| 0 <= t < m.entries@.len() && m.entries@[t].0@ == k;
            assert(r.entries@[t].0@ == k);
        }
        assert(r@.dom() =~= m@.dom());
        assert forall|k: Seq<u8>| #[trigger] m@.dom().contains(k) implies r@[k] == (LwwModel {
            timestamp,
            writer,
            payload: m@[k],
        }) by {
            let t = choose|t: int| 0 <= t < m.entries@.len() && m.entries@[t].0@ == k;
            lemma_plain_entries_lookup(m.entries@, t);
            lemma_entries_lookup(r.entries@, t);
        }
    }
    r
}

/// Strips the timestamps from a lattice map, producing the plain map a
/// reader is handed.
pub fn map_payloads(m: &MapValue) -> (r: PlainMapValue)
    requires
        m.wf(),
    ensures
        r.wf(),
        r@.dom() == m@.dom(),
        forall|k: Seq<u8>| #[trigger] m@.dom().contains(k) ==> r@[k] == m@[k].payload,
{
    let mut out: Vec<(Vec<u8>, Vec<u8>)> = Vec::new();
    let mut i: usize = 0;
    while i < m.entries.len()
        invariant
            m.wf(),
            0 <= i <= m.entries@.len(),
            out@.len() == i,
            forall|t: int|
                0 <= t < i ==> out@[t].0@ == m.entries@[t].0@ && out@[t].1@ == m.entries@[t].1@
                    .payload,
        decreases m.entries@.len() - i,
    {
        let k = clone_bytes(&m.entries[i].0);
        let v = clone_bytes(&m.entries[i].1.payload);
        out.push((k, v));
        i += 1;
    }
    let r = PlainMapValue { entries: out };
    proof {
        assert forall|k: Seq<u8>| #[trigger] r@.dom().contains(k) implies m@.dom().contains(k) by {
            let t = choose|t: int| 0 <= t < r.entries@.len() && r.entries@[t].0@ == k;
            assert(m.entries@[t].0@ == k);
        }
        assert forall|k: Seq<u8>| #[trigger] m@.dom().contains(k) implies r@.dom().contains(k) by {
            let t = choose|t: int| 0 <= t < m.entries@.len() && m.entries@[t].0@ == k;
            assert(r.entries@[t].0@ == k);
        }
        assert(r@.dom() =~= m@.dom());
        assert forall|k: Seq<u8>| #[trigger] m@.dom().contains(k) implies r@[k] == m@[k].payload by {
            let t = choose|t: int| 0 <= t < m.entries@.len() && m.entries@[t].0@ == k;
            lemma_entries_lookup(m.entries@, t);
            lemma_plain_entries_lookup(r.entries@, t);
        }
    }
    r
}

// ---------------------------------------------------------------------------
// The tagged union
// ---------------------------------------------------------------------------

/// A mergeable value: one of the four supported lattice disciplines.
#[derive(Debug, PartialEq, Eq)]
pub enum LatticeValue {
    /// A last-writer-wins byte payload.
    Lww(LwwValue),
    /// A set of byte strings, merged by union.
    ByteSet(SetValue),
    /// A field map whose fields are last-writer-wins values.
    FieldMap(MapValue),
    /// A counter delta, merged by addition.
    Int(i64),
}

/// Mathematical model of a [`LatticeValue`].
pub enum LatticeModel {
    /// A last-writer-wins byte payload.
    Lww(LwwModel),
    /// A set of byte strings.
    ByteSet(Set<Seq<u8>>),
    /// A field map.
    FieldMap(Map<Seq<u8>, LwwModel>),
    /// A counter delta.
    Int(i64),
}

impl View for LatticeValue {
    type V = LatticeModel;

    open spec fn view(&self) -> LatticeModel {
        match self {
            LatticeValue::Lww(v) => LatticeModel::Lww(v@),
            LatticeValue::ByteSet(v) => LatticeModel::ByteSet(v@),
            LatticeValue::FieldMap(v) => LatticeModel::FieldMap(v@),
            LatticeValue::Int(v) => LatticeModel::Int(*v),
        }
    }
}

/// Whether two lattice values carry the same variant, so that a merge is
/// defined on them.
pub open spec fn same_variant(a: LatticeModel, b: LatticeModel) -> bool {
    match (a, b) {
        (LatticeModel::Lww(_), LatticeModel::Lww(_)) => true,
        (LatticeModel::ByteSet(_), LatticeModel::ByteSet(_)) => true,
        (LatticeModel::FieldMap(_), LatticeModel::FieldMap(_)) => true,
        (LatticeModel::Int(_), LatticeModel::Int(_)) => true,
        _ => false,
    }
}

/// The variant-specific merge of two lattice values of the same variant.
pub open spec fn lattice_merge_model(a: LatticeModel, b: LatticeModel) -> LatticeModel
    recommends
        same_variant(a, b),
{
    match (a, b) {
        (LatticeModel::Lww(x), LatticeModel::Lww(y)) => LatticeModel::Lww(lww_merge_model(x, y)),
        (LatticeModel::ByteSet(x), LatticeModel::ByteSet(y)) => LatticeModel::ByteSet(set_merge_model(x, y)),
        (LatticeModel::FieldMap(x), LatticeModel::FieldMap(y)) => LatticeModel::FieldMap(map_merge_model(x, y)),
        (LatticeModel::Int(x), LatticeModel::Int(y)) => LatticeModel::Int(int_merge_model(x, y)),
        _ => a,
    }
}

impl LatticeValue {
    /// The well-formedness of the variant payload.
    pub open spec fn wf(&self) -> bool {
        match self {
            LatticeValue::Lww(_) => true,
            LatticeValue::ByteSet(v) => v.wf(),
            LatticeValue::FieldMap(v) => v.wf(),
            LatticeValue::Int(_) => true,
        }
    }

    /// Merges two lattice values.  The merge succeeds exactly when the
    /// variants match; merging across variants is an error, never a silent
    /// coercion.
    pub fn merge(self, other: LatticeValue) -> (r: Result<LatticeValue, ClientError>)
        requires
            self.wf(),
            other.wf(),
        ensures
            r is Ok <==> same_variant(self@, other@),
            r is Ok ==> r->Ok_0.wf() && r->Ok_0@ == lattice_merge_model(self@, other@),
            r is Err ==> r->Err_0 == ClientError::UnexpectedValueType,
    {
        match (self, other) {
            (LatticeValue::Lww(x), LatticeValue::Lww(y)) => Ok(LatticeValue::Lww(lww_merge(x, y))),
            (LatticeValue::ByteSet(x), LatticeValue::ByteSet(y)) => Ok(LatticeValue::ByteSet(set_merge(x, y))),
            (LatticeValue::FieldMap(x), LatticeValue::FieldMap(y)) => Ok(LatticeValue::FieldMap(map_merge(x, y))),
            (LatticeValue::Int(x), LatticeValue::Int(y)) => Ok(LatticeValue::Int(int_merge(x, y))),
            _ => Err(ClientError::UnexpectedValueType),
        }
    }
}

} // verus!
