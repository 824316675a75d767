//! The logical processors of a host, indexed by processor number.
use crate::cpu_fields::Decimal;
use crate::cpu_info::{CpuInfo, cpu_fault, cpu_matches, parse_single_cpu, block_outcome};
use crate::descriptor::{PairView, descriptor_blocks, pairs_view, blocks_view, parse_blocks};
use crate::error::Error;
use std::collections::BTreeMap;
use vstd::prelude::*;

verus! {

broadcast use {vstd::laws_cmp::group_laws_cmp, vstd::std_specs::btree::group_btree_axioms};

/// Processor numbers strictly ascending.
pub open spec fn ascending(s: Seq<CpuInfo>) -> bool {
    forall|i: int, j: int| 0 <= i < j < s.len() ==> s[i].processor < s[j].processor
}

/// No record after `recs[j]` has its processor number.
pub open spec fn latest(recs: Seq<CpuInfo>, j: int) -> bool {
    forall|k: int| j < k < recs.len() ==> (#[trigger] recs[k]).processor != recs[j].processor
}

/// `c` is a record of `recs[lo..]` that no later record overrides.
pub open spec fn kept_from(recs: Seq<CpuInfo>, lo: int, c: CpuInfo) -> bool {
    exists|j: int| lo <= j < recs.len() && #[trigger] recs[j] == c && latest(recs, j)
}

/// Some record of `s` has processor number `p`.
pub open spec fn has_processor(s: Seq<CpuInfo>, p: u64) -> bool {
    exists|i: int| 0 <= i < s.len() && (#[trigger] s[i]).processor == p
}

/// `s` keeps, for each processor number among `recs`, the last record with that
/// number, and nothing else.
pub open spec fn last_wins(s: Seq<CpuInfo>, recs: Seq<CpuInfo>) -> bool {
    &&& forall|i: int| 0 <= i < s.len() ==> kept_from(recs, 0, #[trigger] s[i])
    &&& forall|j: int| 0 <= j < recs.len() ==> has_processor(s, (#[trigger] recs[j]).processor)
}

/// The logical processors, ascending by processor number, at most one per number.
#[derive(Debug)]
pub struct CpuTopology {
    cores: Vec<CpuInfo>,
}

impl View for CpuTopology {
    type V = Seq<CpuInfo>;

    closed spec fn view(&self) -> Seq<CpuInfo> {
        self.cores@
    }
}

/// The blocks of `bs` that read as records, in order.
pub open spec fn readable_blocks(bs: Seq<Seq<PairView>>) -> Seq<Seq<PairView>>
    decreases bs.len(),
{
    if bs.len() == 0 {
        Seq::empty()
    } else if cpu_fault(bs.last()) is None {
        readable_blocks(bs.drop_last()).push(bs.last())
    } else {
        readable_blocks(bs.drop_last())
    }
}

/// The processor numbers of `s` whose core id is `core_id`, in order.
pub open spec fn processors_of_core(s: Seq<CpuInfo>, core_id: u64) -> Seq<u64>
    decreases s.len(),
{
    if s.len() == 0 {
        Seq::empty()
    } else if s.last().core_id == core_id {
        processors_of_core(s.drop_last(), core_id).push(s.last().processor)
    } else {
        processors_of_core(s.drop_last(), core_id)
    }
}

/// Number of distinct values among `v`.
pub fn count_distinct(v: &Vec<u64>) -> (r: usize)
    ensures
        r == v@.to_set().len(),
{
    let mut seen: Vec<u64> = Vec::new();
    let mut i: usize = 0;
    while i < v.len()
        invariant
            i <= v.len(),
            seen@.no_duplicates(),
            seen@.to_set() == v@.subrange(0, i as int).to_set(),
            seen.len() <= i,
        decreases v.len() - i,
    {
        let x = v[i];
        let mut found = false;
        let mut k: usize = 0;
        while k < seen.len()
            invariant
                k <= seen.len(),
                found ==> seen@.contains(x),
                !found ==> forall|m: int| 0 <= m < k ==> seen@[m] != x,
            decreases seen.len() - k,
        {
            if seen[k] == x {
                found = true;
            }
            k = k + 1;
        }
        assert(v@.subrange(0, i + 1) == v@.subrange(0, i as int).push(x));
        proof {
            v@.subrange(0, i as int).lemma_push_to_set_commute(x);
        }
        if !found {
            proof {
                seen@.lemma_push_to_set_commute(x);
            }
            seen.push(x);
        } else {
            assert(seen@.to_set().insert(x) =~= seen@.to_set());
        }
        i = i + 1;
    }
    assert(v@.subrange(0, i as int) == v@);
    proof {
        seen@.unique_seq_to_set();
    }
    seen.len()
}

impl CpuTopology {
    #[verifier::type_invariant]
    spec fn sorted(&self) -> bool {
        ascending(self.cores@)
    }

    /// The records, ascending by processor number.
    pub fn cores(&self) -> (r: &Vec<CpuInfo>)
        ensures
            ascending(self@),
            r@ == self@,
    {
        proof {
            use_type_invariant(self);
        }
        &self.cores
    }

    /// Indexes `recs` by processor number; of two records with one number the later one stays.
    pub fn from_records(recs: Vec<CpuInfo>) -> (r: CpuTopology)
        ensures
            ascending(r@),
            last_wins(r@, recs@),
    {
        let ghost all = recs@;
        let mut recs = recs;
        let mut cores: Vec<CpuInfo> = Vec::new();
        while recs.len() > 0
            invariant
                recs@ == all.subrange(0, recs.len() as int),
                recs.len() <= all.len(),
                ascending(cores@),
                forall|i: int| 0 <= i < cores.len() ==> kept_from(all, recs.len() as int, #[trigger] cores@[i]),
                forall|j: int| recs.len() <= j < all.len() ==> has_processor(cores@, (#[trigger] all[j]).processor),
            decreases recs.len(),
        {
            let ghost n = recs.len() - 1;
            let ghost old_recs = recs@;
            let r = recs.pop().unwrap();
            assert(all[n as int] == r);
            assert(recs@ == all.subrange(0, n as int));
            let p = r.processor;
            let mut pos: usize = 0;
            while pos < cores.len() && cores[pos].processor < p
                invariant
                    pos <= cores.len(),
                    forall|m: int| 0 <= m < pos ==> cores@[m].processor < p,
                decreases cores.len() - pos,
            {
                pos = pos + 1;
            }
            let ghost before = cores@;
            assert forall|i: int| 0 <= i < before.len() implies kept_from(all, n as int, #[trigger] before[i]) by {
                let j = choose|j: int| n + 1 <= j < all.len() && #[trigger] all[j] == before[i] && latest(all, j);
            }
            if pos < cores.len() && cores[pos].processor == p {
                assert(has_processor(cores@, all[n as int].processor)) by {
                    assert(cores@[pos as int].processor == p);
                }
            } else {
                assert forall|k: int| n < k < all.len() implies (#[trigger] all[k]).processor != p by {
                    assert(has_processor(before, all[k].processor));
                    let ii = choose|ii: int| 0 <= ii < before.len() && (#[trigger] before[ii]).processor == all[k].processor;
                    if ii >= pos {
                        assert(before[pos as int].processor <= before[ii].processor);
                    }
                }
                assert(latest(all, n as int));
                cores.insert(pos, r);
                assert forall|i: int| 0 <= i < cores.len() implies kept_from(all, n as int, #[trigger] cores@[i]) by {
                    if i < pos {
                        assert(cores@[i] == before[i]);
                    } else if i == pos {
                        assert(all[n as int] == cores@[i]);
                    } else {
                        assert(cores@[i] == before[i - 1]);
                    }
                }
                assert forall|j: int| n <= j < all.len() implies has_processor(cores@, (#[trigger] all[j]).processor) by {
                    if j == n {
                        assert(cores@[pos as int].processor == all[j].processor);
                    } else {
                        assert(has_processor(before, all[j].processor));
                        let i = choose|i: int| 0 <= i < before.len() && (#[trigger] before[i]).processor == all[j].processor;
                        if i < pos {
                            assert(cores@[i] == before[i]);
                        } else {
                            assert(cores@[i + 1] == before[i]);
                        }
                    }
                }
            }
        }
        assert(all.subrange(0, 0) =~= Seq::<CpuInfo>::empty());
        CpuTopology { cores }
    }

    /// Reads descriptor text into a topology of the blocks that read. A block
    /// that lacks a required field, or holds one that does not read, is left
    /// out and suppresses no other; `parse_cpuinfo_blocks` reports it.
    pub fn parse_cpuinfo(text: &str) -> (r: CpuTopology)
        ensures
            ascending(r@),
            ({
                let good = readable_blocks(descriptor_blocks(text@));
                exists|recs: Seq<CpuInfo>|
                    recs.len() == good.len() && (forall|k: int|
                        0 <= k < good.len() ==> cpu_matches(#[trigger] recs[k], good[k])) && last_wins(r@, recs)
            }),
    {
        let blocks = parse_blocks(text);
        let ghost bs = blocks_view(blocks@);
        let mut recs: Vec<CpuInfo> = Vec::new();
        let mut k: usize = 0;
        assert(bs.subrange(0, 0) =~= Seq::<Seq<PairView>>::empty());
        while k < blocks.len()
            invariant
                bs == blocks_view(blocks@),
                bs == descriptor_blocks(text@),
                k <= blocks.len(),
                recs.len() == readable_blocks(bs.subrange(0, k as int)).len(),
                forall|m: int|
                    0 <= m < recs.len() ==> cpu_matches(#[trigger] recs@[m], readable_blocks(bs.subrange(0, k as int))[m]),
            decreases blocks.len() - k,
        {
            assert(bs[k as int] == pairs_view(blocks@[k as int]@));
            assert(bs.subrange(0, k + 1).drop_last() == bs.subrange(0, k as int));
            match parse_single_cpu(&blocks[k]) {
                Ok(c) => {
                    recs.push(c);
                },
                Err(_) => {},
            }
            k = k + 1;
        }
        assert(bs.subrange(0, k as int) == bs);
        let ghost rv = recs@;
        let t = CpuTopology::from_records(recs);
        let ghost good = readable_blocks(bs);
        assert(rv.len() == good.len() && (forall|m: int| 0 <= m < good.len() ==> cpu_matches(#[trigger] rv[m], good[m])));
        t
    }

    /// Reads each block of descriptor text into its own record or its own error.
    pub fn parse_cpuinfo_blocks(text: &str) -> (r: Vec<Result<CpuInfo, Error>>)
        ensures
            r.len() == descriptor_blocks(text@).len(),
            forall|k: int| 0 <= k < r.len() ==> block_outcome(#[trigger] r@[k], descriptor_blocks(text@)[k]),
    {
        let blocks = parse_blocks(text);
        let ghost bs = blocks_view(blocks@);
        let mut out: Vec<Result<CpuInfo, Error>> = Vec::new();
        let mut k: usize = 0;
        while k < blocks.len()
            invariant
                bs == blocks_view(blocks@),
                bs == descriptor_blocks(text@),
                k <= blocks.len(),
                out.len() == k,
                forall|m: int| 0 <= m < k ==> block_outcome(#[trigger] out@[m], bs[m]),
            decreases blocks.len() - k,
        {
            assert(bs[k as int] == pairs_view(blocks@[k as int]@));
            out.push(parse_single_cpu(&blocks[k]));
            k = k + 1;
        }
        out
    }

    /// Number of logical processors.
    pub fn total_logical_cores(&self) -> (r: usize)
        ensures
            r == self@.len(),
    {
        self.cores.len()
    }

    /// Number of distinct physical socket ids.
    pub fn physical_count(&self) -> (r: usize)
        ensures
            r == self@.map_values(|c: CpuInfo| c.physical_id).to_set().len(),
    {
        let mut ids: Vec<u64> = Vec::new();
        let mut i: usize = 0;
        while i < self.cores.len()
            invariant
                i <= self.cores.len(),
                ids@ == self.cores@.subrange(0, i as int).map_values(|c: CpuInfo| c.physical_id),
            decreases self.cores.len() - i,
        {
            ids.push(self.cores[i].physical_id);
            assert(ids@ =~= self.cores@.subrange(0, i + 1).map_values(|c: CpuInfo| c.physical_id));
            i = i + 1;
        }
        assert(self.cores@.subrange(0, i as int) == self.cores@);
        count_distinct(&ids)
    }

    /// Number of distinct core ids over all sockets. Where two sockets number
    /// their cores alike, their cores are counted once.
    pub fn total_physical_cores(&self) -> (r: usize)
        ensures
            r == self@.map_values(|c: CpuInfo| c.core_id).to_set().len(),
    {
        let mut ids: Vec<u64> = Vec::new();
        let mut i: usize = 0;
        while i < self.cores.len()
            invariant
                i <= self.cores.len(),
                ids@ == self.cores@.subrange(0, i as int).map_values(|c: CpuInfo| c.core_id),
            decreases self.cores.len() - i,
        {
            ids.push(self.cores[i].core_id);
            assert(ids@ =~= self.cores@.subrange(0, i + 1).map_values(|c: CpuInfo| c.core_id));
            i = i + 1;
        }
        assert(self.cores@.subrange(0, i as int) == self.cores@);
        count_distinct(&ids)
    }

    /// The lowest processor number whose core id is `core_id`.
    pub fn find_processor_by_core_id(&self, core_id: u64) -> (r: Option<u64>)
        ensures
            ascending(self@),
            match r {
                Some(p) => exists|i: int|
                    0 <= i < self@.len() && self@[i].core_id == core_id && self@[i].processor == p
                        && forall|m: int| 0 <= m < i ==> (#[trigger] self@[m]).core_id != core_id,
                None => forall|i: int| 0 <= i < self@.len() ==> (#[trigger] self@[i]).core_id != core_id,
            },
    {
        proof {
            use_type_invariant(self);
        }
        let mut i: usize = 0;
        while i < self.cores.len()
            invariant
                i <= self.cores.len(),
                ascending(self.cores@),
                forall|m: int| 0 <= m < i ==> (#[trigger] self.cores@[m]).core_id != core_id,
            decreases self.cores.len() - i,
        {
            if self.cores[i].core_id == core_id {
                return Some(self.cores[i].processor);
            }
            i = i + 1;
        }
        None
    }

    /// The processor numbers of each core id, ascending.
    pub fn group_by_core_id(&self) -> (r: BTreeMap<u64, Vec<u64>>)
        ensures
            ascending(self@),
            forall|c: u64| #[trigger] r@.contains_key(c) <==> exists|i: int| 0 <= i < self@.len() && self@[i].core_id == c,
            forall|c: u64| #[trigger] r@.contains_key(c) ==> r@[c]@ == processors_of_core(self@, c),
    {
        proof {
            use_type_invariant(self);
        }
        let mut groups: BTreeMap<u64, Vec<u64>> = BTreeMap::new();
        let mut i: usize = 0;
        while i < self.cores.len()
            invariant
                i <= self.cores.len(),
                ascending(self.cores@),
                forall|c: u64| #[trigger] groups@.contains_key(c) <==> exists|m: int| 0 <= m < i && self.cores@[m].core_id == c,
                forall|c: u64| #[trigger] groups@.contains_key(c) ==> groups@[c]@ == processors_of_core(self.cores@.subrange(0, i as int), c),
            decreases self.cores.len() - i,
        {
            let c = self.cores[i].core_id;
            let p = self.cores[i].processor;
            let ghost pre = self.cores@.subrange(0, i as int);
            assert(self.cores@.subrange(0, i + 1).drop_last() == pre);
            let mut members = match groups.remove(&c) {
                Some(v) => v,
                None => Vec::new(),
            };
            assert(members@ == processors_of_core(pre, c)) by {
                if !(exists|m: int| 0 <= m < i && self.cores@[m].core_id == c) {
                    lemma_no_core(pre, c);
                }
            }
            members.push(p);
            groups.insert(c, members);
            assert forall|d: u64| #[trigger] groups@.contains_key(d) implies groups@[d]@ == processors_of_core(
                self.cores@.subrange(0, i + 1),
                d,
            ) by {}
            assert forall|d: u64| #[trigger] groups@.contains_key(d) <==> exists|m: int| 0 <= m < i + 1 && self.cores@[m].core_id == d by {
                if d == c {
                    assert(self.cores@[i as int].core_id == d);
                }
            }
            i = i + 1;
        }
        assert(self.cores@.subrange(0, i as int) == self.cores@);
        groups
    }

    /// The clock frequency of each processor.
    pub fn cpu_freq(&self) -> (r: BTreeMap<u64, Decimal>)
        ensures
            ascending(self@),
            forall|p: u64| #[trigger] r@.contains_key(p) <==> exists|i: int| 0 <= i < self@.len() && self@[i].processor == p,
            forall|i: int| 0 <= i < self@.len() ==> r@[#[trigger] self@[i].processor] == self@[i].cpu_mhz,
    {
        proof {
            use_type_invariant(self);
        }
        let mut freq: BTreeMap<u64, Decimal> = BTreeMap::new();
        let mut i: usize = 0;
        while i < self.cores.len()
            invariant
                i <= self.cores.len(),
                ascending(self.cores@),
                forall|p: u64| #[trigger] freq@.contains_key(p) <==> exists|m: int| 0 <= m < i && self.cores@[m].processor == p,
                forall|m: int| 0 <= m < i ==> freq@[#[trigger] self.cores@[m].processor] == self.cores@[m].cpu_mhz,
            decreases self.cores.len() - i,
        {
            freq.insert(self.cores[i].processor, self.cores[i].cpu_mhz);
            assert forall|p: u64| #[trigger] freq@.contains_key(p) <==> exists|m: int| 0 <= m < i + 1 && self.cores@[m].processor == p by {
                if p == self.cores@[i as int].processor {
                    assert(self.cores@[i as int].processor == p);
                }
            }
            i = i + 1;
        }
        freq
    }
}

/// In a topology ascending by processor number, the processor numbers of each
/// core ascend too, and each is the number of a record with that core id.
pub proof fn lemma_core_groups_ascend(s: Seq<CpuInfo>, c: u64)
    requires
        ascending(s),
    ensures
        forall|a: int, b: int|
            0 <= a < b < processors_of_core(s, c).len() ==> processors_of_core(s, c)[a] < processors_of_core(s, c)[b],
        forall|a: int|
            #![trigger processors_of_core(s, c)[a]]
            0 <= a < processors_of_core(s, c).len() ==> exists|m: int|
                0 <= m < s.len() && (#[trigger] s[m]).processor == processors_of_core(s, c)[a] && s[m].core_id == c,
    decreases s.len(),
{
    if s.len() > 0 {
        let t = s.drop_last();
        lemma_core_groups_ascend(t, c);
        let g = processors_of_core(t, c);
        assert forall|a: int| 0 <= a < g.len() implies g[a] < s.last().processor by {
            let m = choose|m: int| 0 <= m < t.len() && (#[trigger] t[m]).processor == g[a] && t[m].core_id == c;
            assert(s[m].processor < s[s.len() - 1].processor);
            assert(s[m] == t[m]);
        }
        assert forall|a: int|
            #![trigger processors_of_core(s, c)[a]]
            0 <= a < processors_of_core(s, c).len() implies exists|m: int|
            0 <= m < s.len() && (#[trigger] s[m]).processor == processors_of_core(s, c)[a] && s[m].core_id == c by {
            if a < g.len() {
                let m = choose|m: int| 0 <= m < t.len() && (#[trigger] t[m]).processor == g[a] && t[m].core_id == c;
                assert(s[m] == t[m]);
            } else {
                assert(s[s.len() - 1].processor == processors_of_core(s, c)[a]);
            }
        }
    }
}

proof fn lemma_no_core(s: Seq<CpuInfo>, c: u64)
    requires
        forall|m: int| 0 <= m < s.len() ==> s[m].core_id != c,
    ensures
        processors_of_core(s, c) == Seq::<u64>::empty(),
    decreases s.len(),
{
    if s.len() > 0 {
        lemma_no_core(s.drop_last(), c);
    }
}

} // verus!
