//! What the dashboard decides apart from drawing: the metrics it offers, their captions,
//! the architectures it lets one pick, and the colour of a series.
use vstd::prelude::*;
use vstd::string::*;
use crate::grouping::{Group, GroupKey, sorted_keys, has_key, entry_index, seq_lt};
use crate::text::views;

verus! {

/// The figure a chart of the dashboard plots.
#[derive(Debug, PartialEq, Eq, Structural, Clone, Copy)]
pub enum Metric {
    ColdStart,
    Duration,
    Memory,
}

/// The caption of a metric.
pub open spec fn metric_caption(m: Metric) -> Seq<char> {
    match m {
        Metric::ColdStart => COLD_START@,
        Metric::Duration => DURATION@,
        Metric::Memory => MAX_MEMORY@,
    }
}

pub const COLD_START: &'static str = "Cold Start";
pub const DURATION: &'static str = "Duration";
pub const MAX_MEMORY: &'static str = "Max Memory";

impl Metric {
    /// Every metric, in the order in which the dashboard offers them.
    pub fn variants() -> (res: &'static [Metric])
        ensures
            res@ == seq![Metric::ColdStart, Metric::Duration, Metric::Memory],
    {
        &[Metric::ColdStart, Metric::Duration, Metric::Memory]
    }

    /// The caption of the metric.
    pub fn to_string(&self) -> (res: String)
        ensures
            res@ == metric_caption(*self),
    {
        match self {
            Metric::ColdStart => COLD_START.to_string(),
            Metric::Duration => DURATION.to_string(),
            Metric::Memory => MAX_MEMORY.to_string(),
        }
    }
}

/// Whether `a` is the architecture of some runtime in `lists`.
pub open spec fn listed(lists: Seq<Seq<Seq<char>>>, a: Seq<char>) -> bool {
    exists|i: int, j: int| 0 <= i < lists.len() && 0 <= j < lists[i].len() && #[trigger] lists[i][j] == a
}

/// The architectures that occur in the lists of the runtimes, each once, in the order of `str`.
pub fn distinct_architectures(architectures: &Vec<Vec<String>>) -> (res: Vec<String>)
    ensures
        forall|i: int, j: int| 0 <= i < j < res@.len() ==> seq_lt(#[trigger] res@[i]@, #[trigger] res@[j]@),
        forall|a: Seq<char>| views(res@).contains(a)
            <==> listed(architectures@.map_values(|l: Vec<String>| views(l@)), a),
{
    let ghost lists = architectures@.map_values(|l: Vec<String>| views(l@));
    let mut set: Vec<Group<String, ()>> = Vec::new();
    let mut i: usize = 0;
    while i < architectures.len()
        invariant
            i <= architectures@.len(),
            lists == architectures@.map_values(|l: Vec<String>| views(l@)),
            sorted_keys(set@),
            forall|a: Seq<char>| #[trigger] has_key(set@, a) <==> listed(lists.take(i as int), a),
        decreases architectures@.len() - i,
    {
        let row = &architectures[i];
        let ghost done = lists.take(i as int);
        let mut j: usize = 0;
        while j < row.len()
            invariant
                j <= row@.len(),
                lists == architectures@.map_values(|l: Vec<String>| views(l@)),
                done == lists.take(i as int),
                i < lists.len(),
                lists[i as int] == views(row@),
                sorted_keys(set@),
                forall|a: Seq<char>| #[trigger] has_key(set@, a)
                    <==> (listed(done, a) || views(row@).take(j as int).contains(a)),
            decreases row@.len() - j,
        {
            let ghost before = set@;
            entry_index(&mut set, &row[j], ());
            proof {
                let x = row@[j as int]@;
                let vr = views(row@);
                assert(vr[j as int] == x);
                let small = vr.take(j as int);
                let big = vr.take(j + 1);
                assert(big =~= small.push(x));
                assert forall|a: Seq<char>| #[trigger] has_key(set@, a)
                    <==> (listed(done, a) || big.contains(a)) by {
                    assert(has_key(set@, a) <==> (has_key(before, a) || a == x));
                    assert(has_key(before, a) <==> (listed(done, a) || small.contains(a)));
                    if big.contains(a) && a != x {
                        let t = choose|t: int| 0 <= t < big.len() && #[trigger] big[t] == a;
                        assert(small[t] == a);
                    }
                    if small.contains(a) {
                        let t = choose|t: int| 0 <= t < small.len() && #[trigger] small[t] == a;
                        assert(big[t] == a);
                    }
                    if a == x {
                        assert(big[j as int] == a);
                    }
                }
            }
            j = j + 1;
        }
        proof {
            assert(views(row@).take(row@.len() as int) =~= views(row@));
            assert forall|a: Seq<char>| listed(lists.take(i + 1), a)
                <==> (listed(done, a) || views(row@).contains(a)) by {
                let next = lists.take(i + 1);
                if listed(next, a) {
                    let (x, y) = choose|x: int, y: int| 0 <= x < next.len() && 0 <= y < next[x].len() && #[trigger] next[x][y] == a;
                    if x < i {
                        assert(done[x][y] == a);
                    } else {
                        assert(views(row@)[y] == a);
                    }
                }
                if views(row@).contains(a) {
                    let y = choose|y: int| 0 <= y < views(row@).len() && #[trigger] views(row@)[y] == a;
                    assert(next[i as int][y] == a);
                }
                if listed(done, a) {
                    let (x, y) = choose|x: int, y: int| 0 <= x < done.len() && 0 <= y < done[x].len() && #[trigger] done[x][y] == a;
                    assert(next[x][y] == a);
                }
            }
            assert(j == row@.len());
            assert forall|a: Seq<char>| #[trigger] has_key(set@, a) <==> listed(lists.take(i + 1), a) by {
                assert(has_key(set@, a) <==> (listed(done, a) || views(row@).take(j as int).contains(a)));
            }
        }
        i = i + 1;
    }
    assert(lists.take(architectures@.len() as int) =~= lists);
    let ghost full = set@;
    let mut res: Vec<String> = Vec::new();
    let mut k: usize = 0;
    while k < set.len()
        invariant
            k <= set@.len(),
            sorted_keys(set@),
            res@.len() == k,
            forall|t: int| 0 <= t < k ==> #[trigger] res@[t]@ == set@[t].key@,
            full == set@,
            forall|a: Seq<char>| #[trigger] has_key(set@, a) <==> listed(lists, a),
            lists == architectures@.map_values(|l: Vec<String>| views(l@)),
        decreases set@.len() - k,
    {
        res.push(set[k].key.duplicate());
        k = k + 1;
    }
    proof {
        assert forall|i: int, j: int| 0 <= i < j < res@.len() implies seq_lt(#[trigger] res@[i]@, #[trigger] res@[j]@) by {
            assert(String::precedes(set@[i].key@, set@[j].key@));
        }
        assert forall|a: Seq<char>| views(res@).contains(a) <==> has_key(set@, a) by {
            if views(res@).contains(a) {
                let t = choose|t: int| 0 <= t < views(res@).len() && #[trigger] views(res@)[t] == a;
                assert(set@[t].key@ == a);
            }
            if has_key(set@, a) {
                let t = choose|t: int| 0 <= t < set@.len() && #[trigger] set@[t].key@ == a;
                assert(views(res@)[t] == a);
            }
        }
        assert forall|a: Seq<char>| views(res@).contains(a)
            <==> listed(architectures@.map_values(|l: Vec<String>| views(l@)), a) by {
            assert(views(res@).contains(a) <==> has_key(set@, a));
        }
    }
    res
}

/// The red, green and blue components that a series takes from the hash of its name:
/// the lowest byte, the next, and the one after.
pub fn rgb_from_hash(hash: u64) -> (res: (u8, u8, u8))
    ensures
        res.0 == hash % 256,
        res.1 == (hash / 256) % 256,
        res.2 == (hash / 65536) % 256,
{
    let r = (hash % 256) as u8;
    let g = ((hash / 256) % 256) as u8;
    let b = ((hash / 65536) % 256) as u8;
    (r, g, b)
}

} // verus!
