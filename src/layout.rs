use vstd::prelude::*;

verus! {

/// The three kinds of neuron bank a network is built from.
#[derive(Clone, Copy, Debug, PartialEq, Eq, Structural)]
pub enum BankKind {
    Stochastic,
    Elastic,
    Delay,
}

/// The shape of one bank of the pipeline: its kind, the length of the vector it
/// reads, the number of units it starts with, and the bounds within which that
/// number may move.
#[derive(Clone, Copy, Debug, PartialEq, Eq, Structural)]
pub struct BankPlan {
    pub kind: BankKind,
    pub input_dim: usize,
    pub size: usize,
    pub min_units: usize,
    pub max_units: usize,
}

/// The kind that a configured layer gets: adaptive wins over temporal, and a
/// layer that is neither is stochastic.
pub open spec fn kind_spec(adaptive: bool, temporal: bool) -> BankKind {
    if adaptive {
        BankKind::Elastic
    } else if temporal {
        BankKind::Delay
    } else {
        BankKind::Stochastic
    }
}

/// The sizes of those of the first `n` configured layers that are of `kind`,
/// in configuration order.
pub open spec fn sizes_of_kind(
    sizes: Seq<usize>,
    adaptive: Seq<bool>,
    temporal: Seq<bool>,
    kind: BankKind,
    n: nat,
) -> Seq<usize>
    decreases n,
{
    if n == 0 {
        Seq::empty()
    } else {
        let prev = sizes_of_kind(sizes, adaptive, temporal, kind, (n - 1) as nat);
        if kind_spec(adaptive[n - 1], temporal[n - 1]) == kind {
            prev.push(sizes[n - 1])
        } else {
            prev
        }
    }
}

/// The sizes of all configured layers of `kind`, in configuration order.
pub open spec fn stage(sizes: Seq<usize>, adaptive: Seq<bool>, temporal: Seq<bool>, kind: BankKind) -> Seq<usize> {
    sizes_of_kind(sizes, adaptive, temporal, kind, sizes.len())
}

/// The bounds on a bank's number of units: an elastic bank may shrink to half
/// of its configured size and grow to twice it; the others keep their size.
pub open spec fn bounds_ok(b: BankPlan) -> bool {
    if b.kind == BankKind::Elastic {
        b.min_units == b.size / 2 && b.max_units == b.size * 2
    } else {
        b.min_units == b.size && b.max_units == b.size
    }
}

/// Every bank reads what the bank before it writes; the first one reads a
/// vector as long as its own size.
pub open spec fn chained(p: Seq<BankPlan>) -> bool {
    &&& forall|i: int| 0 < i < p.len() ==> #[trigger] p[i].input_dim == p[i - 1].size
    &&& p.len() > 0 ==> p[0].input_dim == p[0].size
}

/// The pipeline `p` runs the stochastic layers, then the elastic ones, then the
/// delay ones, each group in configuration order, with sound bounds and
/// chained dimensions.
pub open spec fn is_pipeline_of(p: Seq<BankPlan>, sizes: Seq<usize>, adaptive: Seq<bool>, temporal: Seq<bool>) -> bool {
    let s = stage(sizes, adaptive, temporal, BankKind::Stochastic);
    let e = stage(sizes, adaptive, temporal, BankKind::Elastic);
    let d = stage(sizes, adaptive, temporal, BankKind::Delay);
    &&& p.len() == s.len() + e.len() + d.len()
    &&& forall|i: int| 0 <= i < s.len() ==> #[trigger] p[i].kind == BankKind::Stochastic && p[i].size == s[i]
    &&& forall|i: int| 0 <= i < e.len() ==> #[trigger] p[s.len() + i].kind == BankKind::Elastic && p[s.len() + i].size == e[i]
    &&& forall|i: int| 0 <= i < d.len() ==> #[trigger] p[s.len() + e.len() + i].kind == BankKind::Delay && p[s.len() + e.len() + i].size == d[i]
    &&& forall|i: int| 0 <= i < p.len() ==> #[trigger] bounds_ok(p[i])
    &&& chained(p)
}

/// The number of units in the vector that the pipeline `p` hands on, for an
/// input of length `input_len`.
pub open spec fn output_dim(p: Seq<BankPlan>, input_len: nat) -> nat {
    if p.len() == 0 {
        input_len
    } else {
        p.last().size as nat
    }
}

/// The kind of a layer configured with the given flags.
pub fn bank_kind(adaptive: bool, temporal: bool) -> (r: BankKind)
    ensures
        r == kind_spec(adaptive, temporal),
{
    if adaptive {
        BankKind::Elastic
    } else if temporal {
        BankKind::Delay
    } else {
        BankKind::Stochastic
    }
}

fn make_plan(kind: BankKind, input_dim: usize, size: usize) -> (r: BankPlan)
    requires
        size <= usize::MAX / 2,
    ensures
        r.kind == kind,
        r.input_dim == input_dim,
        r.size == size,
        bounds_ok(r),
{
    if kind == BankKind::Elastic {
        BankPlan { kind, input_dim, size, min_units: size / 2, max_units: size * 2 }
    } else {
        BankPlan { kind, input_dim, size, min_units: size, max_units: size }
    }
}

/// Appends to `out` a bank for each configured layer of `kind`, in
/// configuration order, each reading what the bank before it writes.
fn append_stage(out: &mut Vec<BankPlan>, sizes: &[usize], adaptive: &[bool], temporal: &[bool], kind: BankKind)
    requires
        sizes@.len() == adaptive@.len(),
        sizes@.len() == temporal@.len(),
        forall|i: int| 0 <= i < sizes@.len() ==> sizes@[i] <= usize::MAX / 2,
        forall|i: int| 0 <= i < old(out)@.len() ==> #[trigger] bounds_ok(old(out)@[i]),
        chained(old(out)@),
    ensures
        final(out)@.len() == old(out)@.len() + stage(sizes@, adaptive@, temporal@, kind).len(),
        forall|i: int| 0 <= i < old(out)@.len() ==> #[trigger] final(out)@[i] == old(out)@[i],
        forall|i: int|
            0 <= i < stage(sizes@, adaptive@, temporal@, kind).len() ==> #[trigger] final(out)@[old(out)@.len() + i].kind == kind
                && final(out)@[old(out)@.len() + i].size == stage(sizes@, adaptive@, temporal@, kind)[i],
        forall|i: int| 0 <= i < final(out)@.len() ==> #[trigger] bounds_ok(final(out)@[i]),
        chained(final(out)@),
{
    let ghost start = out@;
    let n = sizes.len();
    let mut i: usize = 0;
    while i < n
        invariant
            n == sizes@.len(),
            sizes@.len() == adaptive@.len(),
            sizes@.len() == temporal@.len(),
            forall|j: int| 0 <= j < sizes@.len() ==> sizes@[j] <= usize::MAX / 2,
            0 <= i <= n,
            out@.len() == start.len() + sizes_of_kind(sizes@, adaptive@, temporal@, kind, i as nat).len(),
            forall|j: int| 0 <= j < start.len() ==> #[trigger] out@[j] == start[j],
            forall|j: int|
                0 <= j < sizes_of_kind(sizes@, adaptive@, temporal@, kind, i as nat).len() ==> #[trigger] out@[start.len() + j].kind == kind
                    && out@[start.len() + j].size == sizes_of_kind(sizes@, adaptive@, temporal@, kind, i as nat)[j],
            forall|j: int| 0 <= j < out@.len() ==> #[trigger] bounds_ok(out@[j]),
            chained(out@),
        decreases n - i,
    {
        let k = bank_kind(adaptive[i], temporal[i]);
        if k == kind {
            let size = sizes[i];
            let len = out.len();
            let input_dim = if len == 0 {
                size
            } else {
                out[len - 1].size
            };
            let b = make_plan(kind, input_dim, size);
            out.push(b);
        }
        i = i + 1;
    }
}

/// Lays out the banks of a network configured by the parallel sequences
/// `layer_sizes`, `adaptive` and `temporal`.
pub fn plan_pipeline(layer_sizes: &[usize], adaptive: &[bool], temporal: &[bool]) -> (r: Vec<BankPlan>)
    requires
        layer_sizes@.len() == adaptive@.len(),
        layer_sizes@.len() == temporal@.len(),
        forall|i: int| 0 <= i < layer_sizes@.len() ==> layer_sizes@[i] <= usize::MAX / 2,
    ensures
        is_pipeline_of(r@, layer_sizes@, adaptive@, temporal@),
{
    let mut out: Vec<BankPlan> = Vec::new();
    append_stage(&mut out, layer_sizes, adaptive, temporal, BankKind::Stochastic);
    let ghost after_s = out@;
    append_stage(&mut out, layer_sizes, adaptive, temporal, BankKind::Elastic);
    let ghost after_e = out@;
    append_stage(&mut out, layer_sizes, adaptive, temporal, BankKind::Delay);
    proof {
        let s = stage(layer_sizes@, adaptive@, temporal@, BankKind::Stochastic);
        let e = stage(layer_sizes@, adaptive@, temporal@, BankKind::Elastic);
        assert forall|i: int| 0 <= i < s.len() implies #[trigger] out@[i].kind == BankKind::Stochastic && out@[i].size == s[i] by {
            assert(out@[i] == after_e[i]);
            assert(after_e[i] == after_s[i]);
            assert(after_s[0 + i] == after_s[i]);
        }
        assert forall|i: int| 0 <= i < e.len() implies #[trigger] out@[s.len() + i].kind == BankKind::Elastic && out@[s.len() + i].size == e[i] by {
            assert(out@[s.len() + i] == after_e[s.len() + i]);
        }
    }
    out
}

/// The number of banks of `kind` in `p`.
pub open spec fn banks_of_kind(p: Seq<BankPlan>, kind: BankKind) -> nat
    decreases p.len(),
{
    if p.len() == 0 {
        0
    } else {
        banks_of_kind(p.drop_last(), kind) + if p.last().kind == kind {
            1nat
        } else {
            0nat
        }
    }
}

/// The number of the first `n` configured layers whose flags select `kind`.
pub open spec fn layers_of_kind(adaptive: Seq<bool>, temporal: Seq<bool>, kind: BankKind, n: nat) -> nat
    decreases n,
{
    if n == 0 {
        0
    } else {
        layers_of_kind(adaptive, temporal, kind, (n - 1) as nat) + if kind_spec(adaptive[n - 1], temporal[n - 1]) == kind {
            1nat
        } else {
            0nat
        }
    }
}

proof fn lemma_stage_len(sizes: Seq<usize>, adaptive: Seq<bool>, temporal: Seq<bool>, kind: BankKind, n: nat)
    ensures
        sizes_of_kind(sizes, adaptive, temporal, kind, n).len() == layers_of_kind(adaptive, temporal, kind, n),
    decreases n,
{
    if n > 0 {
        lemma_stage_len(sizes, adaptive, temporal, kind, (n - 1) as nat);
    }
}

proof fn lemma_kinds_partition(adaptive: Seq<bool>, temporal: Seq<bool>, n: nat)
    ensures
        layers_of_kind(adaptive, temporal, BankKind::Stochastic, n) + layers_of_kind(adaptive, temporal, BankKind::Elastic, n)
            + layers_of_kind(adaptive, temporal, BankKind::Delay, n) == n,
    decreases n,
{
    if n > 0 {
        lemma_kinds_partition(adaptive, temporal, (n - 1) as nat);
    }
}

proof fn lemma_banks_concat(a: Seq<BankPlan>, b: Seq<BankPlan>, kind: BankKind)
    ensures
        banks_of_kind(a + b, kind) == banks_of_kind(a, kind) + banks_of_kind(b, kind),
    decreases b.len(),
{
    if b.len() == 0 {
        assert(a + b =~= a);
    } else {
        assert((a + b).drop_last() =~= a + b.drop_last());
        lemma_banks_concat(a, b.drop_last(), kind);
    }
}

proof fn lemma_banks_uniform(a: Seq<BankPlan>, k: BankKind, kind: BankKind)
    requires
        forall|i: int| 0 <= i < a.len() ==> #[trigger] a[i].kind == k,
    ensures
        banks_of_kind(a, kind) == if k == kind {
            a.len()
        } else {
            0
        },
    decreases a.len(),
{
    if a.len() > 0 {
        assert(a.last().kind == k);
        lemma_banks_uniform(a.drop_last(), k, kind);
    }
}

/// A laid-out network has one bank per configured layer, and for each kind as
/// many banks as there are layers whose flags select it.
pub proof fn lemma_bank_counts(p: Seq<BankPlan>, sizes: Seq<usize>, adaptive: Seq<bool>, temporal: Seq<bool>, kind: BankKind)
    requires
        sizes.len() == adaptive.len(),
        sizes.len() == temporal.len(),
        is_pipeline_of(p, sizes, adaptive, temporal),
    ensures
        p.len() == sizes.len(),
        banks_of_kind(p, kind) == layers_of_kind(adaptive, temporal, kind, sizes.len()),
{
    let n = sizes.len();
    let s = stage(sizes, adaptive, temporal, BankKind::Stochastic);
    let e = stage(sizes, adaptive, temporal, BankKind::Elastic);
    let d = stage(sizes, adaptive, temporal, BankKind::Delay);
    lemma_stage_len(sizes, adaptive, temporal, BankKind::Stochastic, n);
    lemma_stage_len(sizes, adaptive, temporal, BankKind::Elastic, n);
    lemma_stage_len(sizes, adaptive, temporal, BankKind::Delay, n);
    lemma_kinds_partition(adaptive, temporal, n);
    let ps = p.subrange(0, s.len() as int);
    let pe = p.subrange(s.len() as int, (s.len() + e.len()) as int);
    let pd = p.subrange((s.len() + e.len()) as int, p.len() as int);
    assert(p =~= ps + pe + pd);
    assert forall|i: int| 0 <= i < ps.len() implies #[trigger] ps[i].kind == BankKind::Stochastic by {
        assert(ps[i] == p[i]);
    }
    assert forall|i: int| 0 <= i < pe.len() implies #[trigger] pe[i].kind == BankKind::Elastic by {
        assert(pe[i] == p[s.len() + i]);
    }
    assert forall|i: int| 0 <= i < pd.len() implies #[trigger] pd[i].kind == BankKind::Delay by {
        assert(pd[i] == p[s.len() + e.len() + i]);
    }
    lemma_banks_uniform(ps, BankKind::Stochastic, kind);
    lemma_banks_uniform(pe, BankKind::Elastic, kind);
    lemma_banks_uniform(pd, BankKind::Delay, kind);
    lemma_banks_concat(ps + pe, pd, kind);
    lemma_banks_concat(ps, pe, kind);
}

} // verus!
