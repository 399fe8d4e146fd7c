//! Sorted association lists, and the grouping of benchmark runs by runtime, architecture and
//! memory size that the report is made of.
use vstd::prelude::*;
use crate::text::to_chars;

verus! {

/// Lexicographic order on character sequences, by code point (the order of `str`).
pub open spec fn seq_lt(a: Seq<char>, b: Seq<char>) -> bool
    decreases a.len(),
{
    if a.len() == 0 {
        b.len() > 0
    } else if b.len() == 0 {
        false
    } else if a[0] != b[0] {
        a[0] < b[0]
    } else {
        seq_lt(a.drop_first(), b.drop_first())
    }
}

pub proof fn lemma_seq_lt_irreflexive(a: Seq<char>)
    ensures
        !seq_lt(a, a),
    decreases a.len(),
{
    if a.len() > 0 {
        lemma_seq_lt_irreflexive(a.drop_first());
    }
}

pub proof fn lemma_seq_lt_transitive(a: Seq<char>, b: Seq<char>, c: Seq<char>)
    requires
        seq_lt(a, b),
        seq_lt(b, c),
    ensures
        seq_lt(a, c),
    decreases a.len(),
{
    if a.len() > 0 && b.len() > 0 && c.len() > 0 && a[0] == b[0] && b[0] == c[0] {
        lemma_seq_lt_transitive(a.drop_first(), b.drop_first(), c.drop_first());
    }
}

pub proof fn lemma_seq_lt_total(a: Seq<char>, b: Seq<char>)
    requires
        a != b,
    ensures
        seq_lt(a, b) || seq_lt(b, a),
    decreases a.len(),
{
    if a.len() > 0 && b.len() > 0 && a[0] == b[0] {
        if a.drop_first() == b.drop_first() {
            assert(a =~= seq![a[0]] + a.drop_first());
            assert(b =~= seq![b[0]] + b.drop_first());
        }
        lemma_seq_lt_total(a.drop_first(), b.drop_first());
    } else if a.len() == 0 && b.len() == 0 {
        assert(a =~= b);
    }
}

/// `a` comes before `b` in the order of `str` exactly when `a` is a proper prefix of `b`,
/// or when at the first position where they differ `a` has the smaller character.
pub proof fn law_seq_lt_is_lexicographic(a: Seq<char>, b: Seq<char>)
    ensures
        seq_lt(a, b) <==> (
            (a.len() < b.len() && b.take(a.len() as int) == a)
            || exists|k: int| 0 <= k < a.len() && k < b.len() && a.take(k) == b.take(k) && #[trigger] a[k] < b[k]
        ),
    decreases a.len(),
{
    if a.len() == 0 {
        assert(b.take(0) =~= a);
    } else if b.len() == 0 {
    } else if a[0] != b[0] {
        if a[0] < b[0] {
            assert(a.take(0) =~= b.take(0));
            assert(a[0] < b[0]);
        } else {
            if a.len() < b.len() && b.take(a.len() as int) == a {
                assert(b.take(a.len() as int)[0] == b[0]);
            }
            if exists|k: int| 0 <= k < a.len() && k < b.len() && a.take(k) == b.take(k) && #[trigger] a[k] < b[k] {
                let k = choose|k: int| 0 <= k < a.len() && k < b.len() && a.take(k) == b.take(k) && #[trigger] a[k] < b[k];
                if k > 0 {
                    assert(a.take(k)[0] == b.take(k)[0]);
                }
            }
        }
    } else {
        let a1 = a.drop_first();
        let b1 = b.drop_first();
        law_seq_lt_is_lexicographic(a1, b1);
        // the proper-prefix case
        if a.len() < b.len() && b.take(a.len() as int) == a {
            assert(b1.take(a1.len() as int) =~= a1) by {
                assert forall|t: int| 0 <= t < a1.len() implies #[trigger] b1.take(a1.len() as int)[t] == a1[t] by {
                    assert(b.take(a.len() as int)[t + 1] == a[t + 1]);
                }
            }
        }
        if a1.len() < b1.len() && b1.take(a1.len() as int) == a1 {
            assert(b.take(a.len() as int) =~= a) by {
                assert forall|t: int| 0 <= t < a.len() implies #[trigger] b.take(a.len() as int)[t] == a[t] by {
                    if t > 0 {
                        assert(b1.take(a1.len() as int)[t - 1] == a1[t - 1]);
                    }
                }
            }
        }
        // the first-difference case
        if exists|k: int| 0 <= k < a.len() && k < b.len() && a.take(k) == b.take(k) && #[trigger] a[k] < b[k] {
            let k = choose|k: int| 0 <= k < a.len() && k < b.len() && a.take(k) == b.take(k) && #[trigger] a[k] < b[k];
            assert(k > 0);
            assert(a1.take(k - 1) =~= b1.take(k - 1)) by {
                assert forall|t: int| 0 <= t < k - 1 implies #[trigger] a1.take(k - 1)[t] == b1.take(k - 1)[t] by {
                    assert(a.take(k)[t + 1] == b.take(k)[t + 1]);
                }
            }
            assert(a1[k - 1] < b1[k - 1]);
        }
        if exists|k: int| 0 <= k < a1.len() && k < b1.len() && a1.take(k) == b1.take(k) && #[trigger] a1[k] < b1[k] {
            let k = choose|k: int| 0 <= k < a1.len() && k < b1.len() && a1.take(k) == b1.take(k) && #[trigger] a1[k] < b1[k];
            assert(a.take(k + 1) =~= b.take(k + 1)) by {
                assert forall|t: int| 0 <= t < k + 1 implies #[trigger] a.take(k + 1)[t] == b.take(k + 1)[t] by {
                    if t > 0 {
                        assert(a1.take(k)[t - 1] == b1.take(k)[t - 1]);
                    }
                }
            }
            assert(a[k + 1] < b[k + 1]);
        }
    }
}

/// A key of a sorted association list: a strict total order on the keys' views, and the
/// executable comparisons that decide it.
pub trait GroupKey: View + Sized {
    spec fn precedes(a: Self::V, b: Self::V) -> bool;

    proof fn lemma_precedes_irreflexive(a: Self::V)
        ensures
            !Self::precedes(a, a),
    ;

    proof fn lemma_precedes_transitive(a: Self::V, b: Self::V, c: Self::V)
        requires
            Self::precedes(a, b),
            Self::precedes(b, c),
        ensures
            Self::precedes(a, c),
    ;

    proof fn lemma_precedes_total(a: Self::V, b: Self::V)
        requires
            a != b,
        ensures
            Self::precedes(a, b) || Self::precedes(b, a),
    ;

    fn same(&self, other: &Self) -> (r: bool)
        ensures
            r == (self@ == other@),
    ;

    fn before(&self, other: &Self) -> (r: bool)
        ensures
            r == Self::precedes(self@, other@),
    ;

    fn duplicate(&self) -> (r: Self)
        ensures
            r@ == self@,
    ;
}

impl GroupKey for u16 {
    open spec fn precedes(a: u16, b: u16) -> bool {
        a < b
    }

    proof fn lemma_precedes_irreflexive(a: u16) {
    }

    proof fn lemma_precedes_transitive(a: u16, b: u16, c: u16) {
    }

    proof fn lemma_precedes_total(a: u16, b: u16) {
    }

    fn same(&self, other: &u16) -> (r: bool) {
        *self == *other
    }

    fn before(&self, other: &u16) -> (r: bool) {
        *self < *other
    }

    fn duplicate(&self) -> (r: u16) {
        *self
    }
}

/// Whether `a` comes before `b` in the order of `str`.
pub fn str_before(a: &str, b: &str) -> (r: bool)
    ensures
        r == seq_lt(a@, b@),
{
    let ca = to_chars(a);
    let cb = to_chars(b);
    let mut k: usize = 0;
    assert(ca@.skip(0) == ca@ && cb@.skip(0) == cb@);
    while k < ca.len() && k < cb.len()
        invariant
            ca@ == a@,
            cb@ == b@,
            k <= ca@.len(),
            k <= cb@.len(),
            ca@.take(k as int) == cb@.take(k as int),
            seq_lt(ca@, cb@) == seq_lt(ca@.skip(k as int), cb@.skip(k as int)),
        decreases ca@.len() - k,
    {
        let x = ca[k];
        let y = cb[k];
        assert(ca@.skip(k as int)[0] == x && cb@.skip(k as int)[0] == y);
        if x != y {
            return x < y;
        }
        assert(ca@.skip(k as int).drop_first() == ca@.skip(k + 1));
        assert(cb@.skip(k as int).drop_first() == cb@.skip(k + 1));
        assert(ca@.take(k + 1) == ca@.take(k as int).push(x));
        assert(cb@.take(k + 1) == cb@.take(k as int).push(y));
        k = k + 1;
    }
    k < cb.len()
}

/// Whether `a` and `b` hold the same characters.
pub fn str_same(a: &str, b: &str) -> (r: bool)
    ensures
        r == (a@ == b@),
{
    let ca = to_chars(a);
    let cb = to_chars(b);
    if ca.len() != cb.len() {
        return false;
    }
    let mut k: usize = 0;
    while k < ca.len()
        invariant
            ca@ == a@,
            cb@ == b@,
            ca@.len() == cb@.len(),
            k <= ca@.len(),
            forall|j: int| 0 <= j < k ==> ca@[j] == cb@[j],
        decreases ca@.len() - k,
    {
        if ca[k] != cb[k] {
            return false;
        }
        k = k + 1;
    }
    assert(ca@ =~= cb@);
    true
}

impl GroupKey for String {
    open spec fn precedes(a: Seq<char>, b: Seq<char>) -> bool {
        seq_lt(a, b)
    }

    proof fn lemma_precedes_irreflexive(a: Seq<char>) {
        lemma_seq_lt_irreflexive(a);
    }

    proof fn lemma_precedes_transitive(a: Seq<char>, b: Seq<char>, c: Seq<char>) {
        lemma_seq_lt_transitive(a, b, c);
    }

    proof fn lemma_precedes_total(a: Seq<char>, b: Seq<char>) {
        lemma_seq_lt_total(a, b);
    }

    fn same(&self, other: &String) -> (r: bool) {
        str_same(self.as_str(), other.as_str())
    }

    fn before(&self, other: &String) -> (r: bool) {
        str_before(self.as_str(), other.as_str())
    }

    fn duplicate(&self) -> (r: String) {
        self.clone()
    }
}


/// One entry of a sorted association list.
pub struct Group<K, V> {
    pub key: K,
    pub value: V,
}

/// The keys of `gs` ascend strictly.
pub open spec fn sorted_keys<K: GroupKey, V>(gs: Seq<Group<K, V>>) -> bool {
    forall|i: int, j: int| 0 <= i < j < gs.len() ==> K::precedes(#[trigger] gs[i].key@, #[trigger] gs[j].key@)
}

/// Whether some entry of `gs` has the key `k`.
pub open spec fn has_key<K: GroupKey, V>(gs: Seq<Group<K, V>>, k: K::V) -> bool {
    exists|i: int| 0 <= i < gs.len() && #[trigger] gs[i].key@ == k
}

/// The value under the key `k`, if there is one.
pub open spec fn find<K: GroupKey, V>(gs: Seq<Group<K, V>>, k: K::V) -> Option<V> {
    if has_key(gs, k) {
        Some(gs[choose|i: int| 0 <= i < gs.len() && #[trigger] gs[i].key@ == k].value)
    } else {
        None
    }
}

pub proof fn lemma_find_at<K: GroupKey, V>(gs: Seq<Group<K, V>>, idx: int)
    requires
        sorted_keys(gs),
        0 <= idx < gs.len(),
    ensures
        find(gs, gs[idx].key@) == Some(gs[idx].value),
{
    let k = gs[idx].key@;
    assert(has_key(gs, k));
    let i = choose|i: int| 0 <= i < gs.len() && #[trigger] gs[i].key@ == k;
    if i < idx {
        assert(K::precedes(gs[i].key@, gs[idx].key@));
        K::lemma_precedes_irreflexive(k);
    } else if idx < i {
        assert(K::precedes(gs[idx].key@, gs[i].key@));
        K::lemma_precedes_irreflexive(k);
    }
}

pub proof fn lemma_find_absent<K: GroupKey, V>(gs: Seq<Group<K, V>>, k: K::V)
    requires
        forall|i: int| 0 <= i < gs.len() ==> #[trigger] gs[i].key@ != k,
    ensures
        find(gs, k) is None,
{
}

/// Replacing the entry at `idx` by one with the same key changes the value under that key only.
pub proof fn lemma_find_replace<K: GroupKey, V>(gs: Seq<Group<K, V>>, idx: int, g: Group<K, V>)
    requires
        sorted_keys(gs),
        0 <= idx < gs.len(),
        g.key@ == gs[idx].key@,
    ensures
        sorted_keys(gs.update(idx, g)),
        find(gs.update(idx, g), g.key@) == Some(g.value),
        forall|k: K::V| k != g.key@ ==> #[trigger] find(gs.update(idx, g), k) == find(gs, k),
{
    let gs2 = gs.update(idx, g);
    assert(sorted_keys(gs2)) by {
        assert forall|i: int, j: int| 0 <= i < j < gs2.len() implies K::precedes(#[trigger] gs2[i].key@, #[trigger] gs2[j].key@) by {
            assert(K::precedes(gs[i].key@, gs[j].key@));
        }
    }
    lemma_find_at(gs2, idx);
    assert forall|k: K::V| k != g.key@ implies #[trigger] find(gs2, k) == find(gs, k) by {
        if has_key(gs, k) {
            let i = choose|i: int| 0 <= i < gs.len() && #[trigger] gs[i].key@ == k;
            lemma_find_at(gs, i);
            lemma_find_at(gs2, i);
        } else {
            assert forall|i: int| 0 <= i < gs2.len() implies #[trigger] gs2[i].key@ != k by {
                assert(gs[i].key@ != k);
            }
            lemma_find_absent(gs2, k);
        }
    }
}

/// The index of the entry with the key `key`; an entry with the value `fresh` is inserted
/// where the order puts it when there is none.
pub fn entry_index<K: GroupKey, V>(gs: &mut Vec<Group<K, V>>, key: &K, fresh: V) -> (idx: usize)
    requires
        sorted_keys(old(gs)@),
    ensures
        sorted_keys(final(gs)@),
        idx < final(gs)@.len(),
        final(gs)@[idx as int].key@ == key@,
        has_key(old(gs)@, key@) ==> find(old(gs)@, key@) == Some(final(gs)@[idx as int].value),
        has_key(old(gs)@, key@) ==> final(gs)@ == old(gs)@,
        !has_key(old(gs)@, key@) ==> final(gs)@[idx as int].value == fresh,
        !has_key(old(gs)@, key@) ==> final(gs)@.len() == old(gs)@.len() + 1,
        !has_key(old(gs)@, key@) ==> forall|j: int| 0 <= j < idx ==> #[trigger] final(gs)@[j] == old(gs)@[j],
        !has_key(old(gs)@, key@) ==> forall|j: int| idx < j < final(gs)@.len() ==> #[trigger] final(gs)@[j] == old(gs)@[j - 1],
        forall|k: K::V| k != key@ ==> #[trigger] find(final(gs)@, k) == find(old(gs)@, k),
        forall|k: K::V| #[trigger] has_key(final(gs)@, k) <==> (has_key(old(gs)@, k) || k == key@),
{
    let ghost old_gs = gs@;
    let mut p: usize = 0;
    while p < gs.len() && gs[p].key.before(key)
        invariant
            gs@ == old_gs,
            sorted_keys(old_gs),
            p <= gs@.len(),
            forall|i: int| 0 <= i < p ==> K::precedes(#[trigger] gs@[i].key@, key@),
        decreases gs@.len() - p,
    {
        p = p + 1;
    }
    // every entry from p on comes after the key, or is at it
    proof {
        assert forall|i: int| p <= i < gs@.len() implies !K::precedes(#[trigger] gs@[i].key@, key@) by {
            if i > p {
                assert(K::precedes(gs@[p as int].key@, gs@[i].key@));
                if K::precedes(gs@[i].key@, key@) {
                    K::lemma_precedes_transitive(gs@[p as int].key@, gs@[i].key@, key@);
                }
            }
        }
    }
    if p < gs.len() && gs[p].key.same(key) {
        proof {
            lemma_find_at(old_gs, p as int);
            assert(has_key(old_gs, key@));
        }
        return p;
    }
    proof {
        // the key is absent: below p the entries precede it, from p on they follow it
        assert forall|i: int| 0 <= i < old_gs.len() implies #[trigger] old_gs[i].key@ != key@ by {
            if i < p {
                if old_gs[i].key@ == key@ {
                    K::lemma_precedes_irreflexive(key@);
                }
            } else if i > p {
                assert(K::precedes(old_gs[p as int].key@, old_gs[i].key@));
                if old_gs[i].key@ == key@ {
                    assert(old_gs[p as int].key@ != key@);
                    K::lemma_precedes_total(old_gs[p as int].key@, key@);
                }
            }
        }
    }
    let g = Group { key: key.duplicate(), value: fresh };
    gs.insert(p, g);
    proof {
        let new_gs = gs@;
        assert forall|i: int| p < i < new_gs.len() implies K::precedes(key@, #[trigger] new_gs[i].key@) by {
            assert(new_gs[i] == old_gs[i - 1]);
            assert(old_gs[i - 1].key@ != key@);
            K::lemma_precedes_total(old_gs[i - 1].key@, key@);
        }
        assert forall|i: int, j: int| 0 <= i < j < new_gs.len() implies K::precedes(#[trigger] new_gs[i].key@, #[trigger] new_gs[j].key@) by {
            if j < p {
                assert(K::precedes(old_gs[i].key@, old_gs[j].key@));
            } else if j == p {
                assert(new_gs[i] == old_gs[i]);
            } else if i == p {
            } else if i < p {
                assert(K::precedes(new_gs[i].key@, key@));
                assert(K::precedes(key@, new_gs[j].key@));
                K::lemma_precedes_transitive(new_gs[i].key@, key@, new_gs[j].key@);
            } else {
                assert(new_gs[i] == old_gs[i - 1] && new_gs[j] == old_gs[j - 1]);
                assert(K::precedes(old_gs[i - 1].key@, old_gs[j - 1].key@));
            }
        }
        assert forall|k: K::V| k != key@ implies #[trigger] find(new_gs, k) == find(old_gs, k) by {
            if has_key(old_gs, k) {
                let i = choose|i: int| 0 <= i < old_gs.len() && #[trigger] old_gs[i].key@ == k;
                lemma_find_at(old_gs, i);
                if i < p {
                    assert(new_gs[i] == old_gs[i]);
                    lemma_find_at(new_gs, i);
                } else {
                    assert(new_gs[i + 1] == old_gs[i]);
                    lemma_find_at(new_gs, i + 1);
                }
            } else {
                assert forall|i: int| 0 <= i < new_gs.len() implies #[trigger] new_gs[i].key@ != k by {
                    if i < p {
                        assert(new_gs[i] == old_gs[i]);
                    } else if i > p {
                        assert(new_gs[i] == old_gs[i - 1]);
                    }
                }
                lemma_find_absent(new_gs, k);
                lemma_find_absent(old_gs, k);
            }
        }
        assert forall|k: K::V| #[trigger] has_key(new_gs, k) <==> (has_key(old_gs, k) || k == key@) by {
            if k == key@ {
                assert(new_gs[p as int].key@ == key@);
            } else {
                assert(find(new_gs, k) == find(old_gs, k));
            }
        }
    }
    p
}


/// Where a run belongs in the report: its runtime, architecture and memory size.
pub struct RunKey {
    pub runtime: String,
    pub architecture: String,
    pub memory: u16,
}

impl View for RunKey {
    type V = (Seq<char>, Seq<char>, u16);

    open spec fn view(&self) -> (Seq<char>, Seq<char>, u16) {
        (self.runtime@, self.architecture@, self.memory)
    }
}

pub open spec fn run_keys(runs: Seq<RunKey>) -> Seq<(Seq<char>, Seq<char>, u16)> {
    runs.map_values(|r: RunKey| r@)
}

/// The positions among the first `n` keys that hold `k`, in ascending order.
pub open spec fn positions(keys: Seq<(Seq<char>, Seq<char>, u16)>, k: (Seq<char>, Seq<char>, u16), n: nat) -> Seq<usize>
    decreases n,
{
    if n == 0 {
        seq![]
    } else if keys[n - 1] == k {
        positions(keys, k, (n - 1) as nat).push((n - 1) as usize)
    } else {
        positions(keys, k, (n - 1) as nat)
    }
}

/// The runs of one memory size: positions in the list of runs.
pub type MemoryGroups = Vec<Group<u16, Vec<usize>>>;

/// The memory sizes of one architecture.
pub type ArchitectureGroups = Vec<Group<String, MemoryGroups>>;

/// The architectures of each runtime.
pub type Grouping = Vec<Group<String, ArchitectureGroups>>;

pub open spec fn memories_wf(ms: Seq<Group<u16, Vec<usize>>>) -> bool {
    &&& ms.len() > 0
    &&& sorted_keys(ms)
    &&& forall|k: int| 0 <= k < ms.len() ==> #[trigger] ms[k].value@.len() > 0
}

pub open spec fn architectures_wf(gs: Seq<Group<String, MemoryGroups>>) -> bool {
    &&& gs.len() > 0
    &&& sorted_keys(gs)
    &&& forall|j: int| 0 <= j < gs.len() ==> memories_wf(#[trigger] gs[j].value@)
}

/// Each level is sorted by key, and no group is empty.
pub open spec fn grouping_wf(g: Seq<Group<String, ArchitectureGroups>>) -> bool {
    &&& sorted_keys(g)
    &&& forall|i: int| 0 <= i < g.len() ==> architectures_wf(#[trigger] g[i].value@)
}

pub open spec fn memory_runs(ms: Seq<Group<u16, Vec<usize>>>, mem: u16) -> Seq<usize> {
    match find(ms, mem) {
        Some(runs) => runs@,
        None => seq![],
    }
}

pub open spec fn architecture_runs(gs: Seq<Group<String, MemoryGroups>>, arch: Seq<char>, mem: u16) -> Seq<usize> {
    match find(gs, arch) {
        Some(ms) => memory_runs(ms@, mem),
        None => seq![],
    }
}

/// The runs that the grouping files under a runtime, an architecture and a memory size.
pub open spec fn runs_in(g: Seq<Group<String, ArchitectureGroups>>, k: (Seq<char>, Seq<char>, u16)) -> Seq<usize> {
    match find(g, k.0) {
        Some(gs) => architecture_runs(gs@, k.1, k.2),
        None => seq![],
    }
}

/// Files the run `i` under its runtime, architecture and memory size.
fn add_run(g: &mut Grouping, run: &RunKey, i: usize)
    requires
        grouping_wf(old(g)@),
    ensures
        grouping_wf(final(g)@),
        forall|k: (Seq<char>, Seq<char>, u16)| #[trigger] runs_in(final(g)@, k)
            == if k == run@ { runs_in(old(g)@, k).push(i) } else { runs_in(old(g)@, k) },
{
    let ghost g0 = g@;
    let ri = entry_index(g, &run.runtime, Vec::new());
    let ghost g1 = g@;
    let mut rgrp = g.remove(ri);
    let ghost a0 = rgrp.value@;
    proof {
        if has_key(g0, run.runtime@) {
            let t = choose|t: int| 0 <= t < g0.len() && #[trigger] g0[t].key@ == run.runtime@;
            lemma_find_at(g0, t);
            assert(architectures_wf(g0[t].value@));
        }
    }
    let ai = entry_index(&mut rgrp.value, &run.architecture, Vec::new());
    let ghost a1 = rgrp.value@;
    let mut agrp = rgrp.value.remove(ai);
    let ghost m0 = agrp.value@;
    proof {
        if has_key(a0, run.architecture@) {
            let t = choose|t: int| 0 <= t < a0.len() && #[trigger] a0[t].key@ == run.architecture@;
            lemma_find_at(a0, t);
            assert(memories_wf(a0[t].value@));
        }
    }
    let mi = entry_index(&mut agrp.value, &run.memory, Vec::new());
    let ghost m1 = agrp.value@;
    let mut mgrp = agrp.value.remove(mi);
    let ghost r0 = mgrp.value@;
    proof {
        if has_key(m0, run.memory) {
            let t = choose|t: int| 0 <= t < m0.len() && #[trigger] m0[t].key@ == run.memory;
            lemma_find_at(m0, t);
        }
        assert(r0 == memory_runs(m0, run.memory));
    }
    mgrp.value.push(i);
    let ghost mgrp_v = mgrp;
    agrp.value.insert(mi, mgrp);
    proof {
        assert(agrp.value@ =~= m1.update(mi as int, mgrp_v));
        lemma_find_replace(m1, mi as int, mgrp_v);
        assert forall|k: int| 0 <= k < agrp.value@.len() implies #[trigger] agrp.value@[k].value@.len() > 0 by {
            if k != mi {
                if has_key(m0, run.memory) {
                    assert(agrp.value@[k] == m0[k]);
                } else {
                    assert(k < mi ==> agrp.value@[k] == m0[k]);
                    assert(k > mi ==> agrp.value@[k] == m0[k - 1]);
                }
            }
        }
        assert(memories_wf(agrp.value@));
        assert forall|mem: u16| #[trigger] memory_runs(agrp.value@, mem)
            == if mem == run.memory { memory_runs(m0, mem).push(i) } else { memory_runs(m0, mem) } by {
            if mem != run.memory {
                assert(find(m1, mem) == find(m0, mem));
            }
        }
    }
    let ghost agrp_v = agrp;
    rgrp.value.insert(ai, agrp);
    proof {
        assert(rgrp.value@ =~= a1.update(ai as int, agrp_v));
        lemma_find_replace(a1, ai as int, agrp_v);
        assert(architecture_runs(a0, run.architecture@, run.memory) == memory_runs(m0, run.memory)) by {
            if has_key(a0, run.architecture@) {
            } else {
                assert(memory_runs(m0, run.memory) == Seq::<usize>::empty());
            }
        }
        assert forall|k: int| 0 <= k < rgrp.value@.len() implies memories_wf(#[trigger] rgrp.value@[k].value@) by {
            if k != ai {
                if has_key(a0, run.architecture@) {
                    assert(rgrp.value@[k] == a0[k]);
                } else {
                    assert(k < ai ==> rgrp.value@[k] == a0[k]);
                    assert(k > ai ==> rgrp.value@[k] == a0[k - 1]);
                }
            }
        }
        assert(architectures_wf(rgrp.value@));
        assert forall|arch: Seq<char>, mem: u16| #[trigger] architecture_runs(rgrp.value@, arch, mem)
            == if arch == run.architecture@ && mem == run.memory {
                architecture_runs(a0, arch, mem).push(i)
            } else {
                architecture_runs(a0, arch, mem)
            } by {
            if arch != run.architecture@ {
                assert(find(a1, arch) == find(a0, arch));
            } else {
                assert(memory_runs(agrp_v.value@, mem) == memory_runs(agrp_v.value@, mem));
                if !has_key(a0, run.architecture@) {
                    assert(memory_runs(m0, mem) == Seq::<usize>::empty());
                }
            }
        }
    }
    let ghost rgrp_v = rgrp;
    g.insert(ri, rgrp);
    proof {
        assert(g@ =~= g1.update(ri as int, rgrp_v));
        lemma_find_replace(g1, ri as int, rgrp_v);
        assert forall|k: int| 0 <= k < g@.len() implies architectures_wf(#[trigger] g@[k].value@) by {
            if k != ri {
                if has_key(g0, run.runtime@) {
                    assert(g@[k] == g0[k]);
                } else {
                    assert(k < ri ==> g@[k] == g0[k]);
                    assert(k > ri ==> g@[k] == g0[k - 1]);
                }
            }
        }
        assert forall|k: (Seq<char>, Seq<char>, u16)| #[trigger] runs_in(g@, k)
            == if k == run@ { runs_in(g0, k).push(i) } else { runs_in(g0, k) } by {
            if k.0 != run.runtime@ {
                assert(find(g1, k.0) == find(g0, k.0));
            } else {
                assert(architecture_runs(rgrp_v.value@, k.1, k.2) == architecture_runs(rgrp_v.value@, k.1, k.2));
                if !has_key(g0, run.runtime@) {
                    assert(architecture_runs(a0, k.1, k.2) == Seq::<usize>::empty());
                }
            }
        }
    }
}


/// Two entries of a sorted list, the earlier first, are in the order of their keys.
pub proof fn lemma_sorted_keys_at<K: GroupKey, V>(gs: Seq<Group<K, V>>, a: int, b: int)
    requires
        sorted_keys(gs),
        0 <= a < b < gs.len(),
    ensures
        K::precedes(gs[a].key@, gs[b].key@),
{
}

/// In a well-formed grouping the runtimes and, under each of them, the architectures come in
/// the order of `str`, and under each architecture the memory sizes ascend numerically.
pub proof fn lemma_grouping_order(g: Seq<Group<String, ArchitectureGroups>>)
    requires
        grouping_wf(g),
    ensures
        forall|i: int, j: int| 0 <= i < j < g.len() ==> seq_lt(#[trigger] g[i].key@, #[trigger] g[j].key@),
        forall|i: int, a: int, b: int|
            #![trigger g[i].value@[a], g[i].value@[b]]
            0 <= i < g.len() && 0 <= a < b < g[i].value@.len()
                ==> seq_lt(g[i].value@[a].key@, g[i].value@[b].key@),
        forall|i: int, j: int, a: int, b: int|
            #![trigger g[i].value@[j].value@[a], g[i].value@[j].value@[b]]
            0 <= i < g.len() && 0 <= j < g[i].value@.len() && 0 <= a < b < g[i].value@[j].value@.len()
                ==> g[i].value@[j].value@[a].key < g[i].value@[j].value@[b].key,
{
    assert forall|i: int, a: int, b: int|
        #![trigger g[i].value@[a], g[i].value@[b]]
        0 <= i < g.len() && 0 <= a < b < g[i].value@.len()
            implies seq_lt(g[i].value@[a].key@, g[i].value@[b].key@) by {
        assert(architectures_wf(g[i].value@));
    }
    assert forall|i: int, j: int, a: int, b: int|
        #![trigger g[i].value@[j].value@[a], g[i].value@[j].value@[b]]
        0 <= i < g.len() && 0 <= j < g[i].value@.len() && 0 <= a < b < g[i].value@[j].value@.len()
            implies g[i].value@[j].value@[a].key < g[i].value@[j].value@[b].key by {
        assert(architectures_wf(g[i].value@));
        let ms = g[i].value@[j].value@;
        assert(memories_wf(ms));
        lemma_sorted_keys_at(ms, a, b);
    }
}

/// The runs grouped by runtime, then architecture, then memory size, each level in the
/// order of its keys; under each memory size the positions of its runs, in the order in
/// which they come.
pub fn group_and_sort(runs: &[RunKey]) -> (res: Grouping)
    ensures
        grouping_wf(res@),
        forall|k: (Seq<char>, Seq<char>, u16)| #[trigger] runs_in(res@, k)
            == positions(run_keys(runs@), k, runs@.len() as nat),
        forall|i: int, j: int| 0 <= i < j < res@.len() ==> seq_lt(#[trigger] res@[i].key@, #[trigger] res@[j].key@),
        forall|i: int, a: int, b: int|
            #![trigger res@[i].value@[a], res@[i].value@[b]]
            0 <= i < res@.len() && 0 <= a < b < res@[i].value@.len()
                ==> seq_lt(res@[i].value@[a].key@, res@[i].value@[b].key@),
        forall|i: int, j: int, a: int, b: int|
            #![trigger res@[i].value@[j].value@[a], res@[i].value@[j].value@[b]]
            0 <= i < res@.len() && 0 <= j < res@[i].value@.len() && 0 <= a < b < res@[i].value@[j].value@.len()
                ==> res@[i].value@[j].value@[a].key < res@[i].value@[j].value@[b].key,
{
    let mut g: Grouping = Vec::new();
    for i in 0..runs.len()
        invariant
            grouping_wf(g@),
            forall|k: (Seq<char>, Seq<char>, u16)| #[trigger] runs_in(g@, k)
                == positions(run_keys(runs@), k, i as nat),
    {
        let ghost before = g@;
        add_run(&mut g, &runs[i], i);
        assert forall|k: (Seq<char>, Seq<char>, u16)| #[trigger] runs_in(g@, k)
            == positions(run_keys(runs@), k, (i + 1) as nat) by {
            assert(run_keys(runs@)[i as int] == runs@[i as int]@);
            assert(runs_in(before, k) == positions(run_keys(runs@), k, i as nat));
        }
    }
    proof {
        lemma_grouping_order(g@);
    }
    g
}

} // verus!
