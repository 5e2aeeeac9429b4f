//! Mixture-of-experts layers: configuration and weight sizes, the routing
//! of tokens to experts, the checks and output allocation of a forward
//! pass, and cost estimates.
//!
//! Without a device the router is simulated: token `t` goes to the
//! experts `(t + k) mod E` for `k < top_k`, in ascending order without
//! repeats, padded with the first of them up to `top_k`. (Routing weights,
//! which are floats, are `1 / top_k` each and are left to the caller, as
//! are the router jitter and capacity factor.)

use vstd::prelude::*;
use crate::buffer::{GpuBuffer, bytes_of, product_fits, shape_product};
use crate::device::CudaDevice;
use crate::mlp::{Activation, MlpConfig};
use crate::text::decimal;
use crate::types::{DType, StateId};

verus! {

/// MoE configuration.
#[derive(Debug, Clone, Copy, PartialEq, Eq, Structural)]
pub struct MoeConfig {
    /// Number of experts.
    pub num_experts: usize,
    /// Number of experts per token (top-k).
    pub top_k: usize,
    /// Hidden dimension.
    pub hidden_dim: usize,
    /// Expert intermediate dimension.
    pub expert_intermediate_dim: usize,
    /// Data type.
    pub dtype: DType,
    /// Activation function.
    pub activation: Activation,
    /// Whether experts use gated activation.
    pub gated: bool,
}

impl MoeConfig {
    /// Mixtral-style configuration: 8 experts, top-2, FP16, gated SiLU.
    pub fn mixtral(hidden_dim: usize, expert_intermediate_dim: usize) -> (r: Self)
        ensures
            r == (MoeConfig {
                num_experts: 8,
                top_k: 2,
                hidden_dim,
                expert_intermediate_dim,
                dtype: DType::Float16,
                activation: Activation::Silu,
                gated: true,
            }),
    {
        MoeConfig {
            num_experts: 8,
            top_k: 2,
            hidden_dim,
            expert_intermediate_dim,
            dtype: DType::Float16,
            activation: Activation::Silu,
            gated: true,
        }
    }

    /// DeepSeek-style configuration: FP16, gated SiLU.
    pub fn deepseek(num_experts: usize, top_k: usize, hidden_dim: usize, expert_intermediate_dim: usize) -> (r: Self)
        ensures
            r == (MoeConfig {
                num_experts,
                top_k,
                hidden_dim,
                expert_intermediate_dim,
                dtype: DType::Float16,
                activation: Activation::Silu,
                gated: true,
            }),
    {
        MoeConfig {
            num_experts,
            top_k,
            hidden_dim,
            expert_intermediate_dim,
            dtype: DType::Float16,
            activation: Activation::Silu,
            gated: true,
        }
    }

    /// The MLP of one expert.
    pub open spec fn expert_mlp(&self) -> MlpConfig {
        MlpConfig {
            hidden_dim: self.hidden_dim,
            intermediate_dim: self.expert_intermediate_dim,
            dtype: self.dtype,
            activation: self.activation,
            gated: self.gated,
        }
    }

    /// Weight bytes of one expert.
    pub open spec fn spec_expert_weight_size(&self) -> int {
        self.expert_mlp().spec_up_weight_size() + self.expert_mlp().spec_down_weight_size()
    }

    /// The expert weight size fits in a `usize` at every step.
    pub open spec fn expert_fits(&self) -> bool {
        &&& self.expert_mlp().up_fits()
        &&& self.expert_mlp().down_fits()
        &&& self.spec_expert_weight_size() <= usize::MAX
    }

    /// Weight size per expert in bytes.
    pub fn expert_weight_size(&self) -> (r: usize)
        requires
            self.expert_fits(),
        ensures
            r == self.spec_expert_weight_size(),
    {
        let mlp_config = MlpConfig {
            hidden_dim: self.hidden_dim,
            intermediate_dim: self.expert_intermediate_dim,
            dtype: self.dtype,
            activation: self.activation,
            gated: self.gated,
        };
        mlp_config.total_weight_size()
    }

    /// Total weight size of all experts.
    pub fn total_weight_size(&self) -> (r: usize)
        requires
            self.expert_fits(),
            self.spec_expert_weight_size() * self.num_experts <= usize::MAX,
        ensures
            r == self.spec_expert_weight_size() * self.num_experts,
    {
        self.expert_weight_size() * self.num_experts
    }

    /// Router weight size in bytes.
    pub fn router_weight_size(&self) -> (r: usize)
        requires
            self.hidden_dim * self.num_experts <= usize::MAX,
            self.hidden_dim * self.num_experts * self.dtype.spec_size_bytes() <= usize::MAX,
        ensures
            r == self.hidden_dim * self.num_experts * self.dtype.spec_size_bytes(),
    {
        self.hidden_dim * self.num_experts * self.dtype.size_bytes()
    }
}

// =============================================================================
// Routing
// =============================================================================

/// Whether expert `v` is among `(t + k) mod n` for `k < top_k`.
pub open spec fn in_window(t: int, top_k: int, n: int, v: int) -> bool {
    exists|k: int| 0 <= k < top_k && #[trigger] ((t + k) % n) == v
}

/// The distinct experts of token `t`, ascending.
pub open spec fn window(t: int, top_k: int, n: int) -> Seq<usize> {
    Seq::new(n as nat, |v: int| v as usize).filter(|v: usize| in_window(t, top_k, n, v as int))
}

/// The experts a token is routed to: its distinct experts, ascending,
/// padded with the first of them up to `top_k`.
pub open spec fn route(t: int, top_k: int, n: int) -> Seq<usize> {
    let w = window(t, top_k, n);
    if w.len() >= top_k || w.len() == 0 {
        w
    } else {
        w + Seq::new((top_k - w.len()) as nat, |i: int| w[0])
    }
}

/// How often `e` occurs in a sequence.
pub open spec fn count_in(s: Seq<usize>, e: usize) -> nat
    decreases s.len(),
{
    if s.len() == 0 {
        0
    } else {
        count_in(s.drop_last(), e) + if s.last() == e {
            1nat
        } else {
            0nat
        }
    }
}

/// The routes of several tokens, one after the other.
pub open spec fn flat(routes: Seq<Seq<usize>>) -> Seq<usize>
    decreases routes.len(),
{
    if routes.len() == 0 {
        Seq::empty()
    } else {
        flat(routes.drop_last()) + routes.last()
    }
}

/// How often expert `e` occurs in the routes of the tokens.
pub open spec fn occurrences(routes: Seq<Seq<usize>>, e: usize) -> nat {
    count_in(flat(routes), e)
}

/// `c` lists each value occurring in `items` once, with how often it
/// occurs.
pub open spec fn tallies(c: Seq<(usize, usize)>, items: Seq<usize>) -> bool {
    &&& forall|i: int, j: int| 0 <= i < j < c.len() ==> c[i].0 != c[j].0
    &&& forall|i: int| 0 <= i < c.len() ==> (#[trigger] c[i]).1 == count_in(items, c[i].0) && c[i].1 > 0
    &&& forall|e: usize| #[trigger] count_in(items, e) > 0 ==> exists|i: int| 0 <= i < c.len() && c[i].0 == e
}

proof fn lemma_count_le_len(s: Seq<usize>, e: usize)
    ensures
        count_in(s, e) <= s.len(),
    decreases s.len(),
{
    if s.len() > 0 {
        lemma_count_le_len(s.drop_last(), e);
    }
}

/// Count one more occurrence of `x`.
fn tally(counts: &mut Vec<(usize, usize)>, x: usize, Ghost(items): Ghost<Seq<usize>>)
    requires
        tallies(old(counts)@, items),
        items.len() < usize::MAX,
    ensures
        tallies(final(counts)@, items.push(x)),
{
    let ghost next = items.push(x);
    proof {
        assert(next.drop_last() =~= items);
        lemma_count_le_len(items, x);
    }
    let mut k: usize = 0;
    while k < counts.len()
        invariant
            k <= counts@.len(),
            counts@ == old(counts)@,
            tallies(old(counts)@, items),
            items.len() < usize::MAX,
            count_in(items, x) <= items.len(),
            next == items.push(x),
            next.drop_last() == items,
            forall|j: int| 0 <= j < k ==> counts@[j].0 != x,
        decreases counts@.len() - k,
    {
        if counts[k].0 == x {
            let c = counts[k].1;
            assert(old(counts)@[k as int] == counts@[k as int]);
            assert(c == count_in(items, x));
            counts.set(k, (x, c + 1));
            proof {
                let before = old(counts)@;
                assert forall|i: int| 0 <= i < counts@.len() implies (#[trigger] counts@[i]).1 == count_in(
                    next,
                    counts@[i].0,
                ) && counts@[i].1 > 0 by {
                    if i != k {
                        assert(counts@[i] == before[i]);
                    }
                }
                assert forall|e: usize| #[trigger] count_in(next, e) > 0 implies exists|i: int|
                    0 <= i < counts@.len() && counts@[i].0 == e by {
                    if e == x {
                        assert(counts@[k as int].0 == e);
                    } else {
                        assert(count_in(next, e) == count_in(items, e));
                        assert(count_in(items, e) > 0);
                        let i = choose|i: int| 0 <= i < before.len() && before[i].0 == e;
                        assert(counts@[i] == before[i]);
                    }
                }
            }
            return;
        }
        k = k + 1;
    }
    let ghost at_exit = counts@;
    assert(forall|j: int| 0 <= j < at_exit.len() ==> at_exit[j].0 != x);
    counts.push((x, 1));
    proof {
        let before = old(counts)@;
        assert(at_exit == before);
        assert(count_in(items, x) == 0) by {
            if count_in(items, x) > 0 {
                let i = choose|i: int| 0 <= i < before.len() && before[i].0 == x;
                assert(at_exit[i].0 != x);
            }
        }
        assert forall|i: int| 0 <= i < counts@.len() implies (#[trigger] counts@[i]).1 == count_in(
            next,
            counts@[i].0,
        ) && counts@[i].1 > 0 by {
            if i < before.len() {
                assert(counts@[i] == before[i]);
            }
        }
        assert forall|e: usize| #[trigger] count_in(next, e) > 0 implies exists|i: int|
            0 <= i < counts@.len() && counts@[i].0 == e by {
            if e == x {
                assert(counts@[before.len() as int].0 == e);
            } else {
                assert(count_in(next, e) == count_in(items, e));
                assert(count_in(items, e) > 0);
                let i = choose|i: int| 0 <= i < before.len() && before[i].0 == e;
                assert(counts@[i] == before[i]);
            }
        }
    }
}

proof fn lemma_route_len(t: int, top_k: int, n: int)
    requires
        top_k >= 0,
        n >= 0,
    ensures
        route(t, top_k, n).len() <= top_k + n,
{
    let p = |v: usize| in_window(t, top_k, n, v as int);
    Seq::new(n as nat, |v: int| v as usize).lemma_filter_len(p);
}

/// Filtering a strictly increasing sequence keeps it strictly increasing
/// and keeps only its elements.
proof fn lemma_filter_increasing(s: Seq<usize>, p: spec_fn(usize) -> bool)
    requires
        forall|i: int, j: int| 0 <= i < j < s.len() ==> s[i] < s[j],
    ensures
        forall|i: int, j: int|
            0 <= i < j < s.filter(p).len() ==> #[trigger] s.filter(p)[i] < #[trigger] s.filter(p)[j],
        forall|i: int|
            0 <= i < s.filter(p).len() ==> exists|j: int| 0 <= j < s.len() && #[trigger] s.filter(p)[i] == s[j],
    decreases s.len(),
{
    reveal(Seq::filter);
    if s.len() > 0 {
        let d = s.drop_last();
        lemma_filter_increasing(d, p);
        let f = d.filter(p);
        assert forall|i: int| 0 <= i < f.len() implies f[i] < s.last() by {
            let j = choose|j: int| 0 <= j < d.len() && #[trigger] f[i] == d[j];
            assert(s[j] == d[j]);
        }
        assert forall|i: int| 0 <= i < s.filter(p).len() implies exists|j: int|
            0 <= j < s.len() && #[trigger] s.filter(p)[i] == s[j] by {
            if i < f.len() {
                let j = choose|j: int| 0 <= j < d.len() && #[trigger] f[i] == d[j];
                assert(s[j] == d[j]);
                assert(s.filter(p)[i] == f[i]);
            } else {
                assert(s.filter(p)[i] == s[s.len() - 1]);
            }
        }
    }
}

/// Two offsets below `n` from one token give distinct experts.
proof fn lemma_window_distinct(t: int, n: int, a: int, b: int)
    requires
        t >= 0,
        n > 0,
        0 <= a < b < n,
    ensures
        (t + a) % n != (t + b) % n,
{
    vstd::arithmetic::div_mod::lemma_fundamental_div_mod(t + a, n);
    vstd::arithmetic::div_mod::lemma_fundamental_div_mod(t + b, n);
    let qa = (t + a) / n;
    let qb = (t + b) / n;
    let r = (t + a) % n;
    if r == (t + b) % n {
        assert(false) by (nonlinear_arith)
            requires
                t + a == n * qa + r,
                t + b == n * qb + r,
                0 < b - a < n,
                n > 0,
        ;
    }
}

/// Every token is routed to exactly `top_k` experts, each an expert of
/// the layer and one of the token's window `(t + k) mod n`, `k < top_k`;
/// when there are at least `top_k` experts the token's experts are
/// distinct.
pub proof fn law_route_shape(t: int, top_k: int, n: int)
    requires
        t >= 0,
        top_k > 0,
        n > 0,
        n <= usize::MAX + 1,
    ensures
        route(t, top_k, n).len() == top_k,
        forall|i: int|
            0 <= i < top_k ==> #[trigger] route(t, top_k, n)[i] < n && in_window(
                t,
                top_k,
                n,
                route(t, top_k, n)[i] as int,
            ),
        top_k <= n ==> forall|i: int, j: int|
            0 <= i < j < top_k ==> #[trigger] route(t, top_k, n)[i] != #[trigger] route(t, top_k, n)[j],
{
    broadcast use vstd::seq_lib::group_filter_ensures;
    broadcast use vstd::seq_lib::seq_to_set_is_finite;

    let pred = |v: usize| in_window(t, top_k, n, v as int);
    let base = Seq::new(n as nat, |v: int| v as usize);
    let w = window(t, top_k, n);
    assert(w == base.filter(pred));
    lemma_filter_increasing(base, pred);
    // Every member of the window is a window value below n.
    assert forall|i: int| 0 <= i < w.len() implies w[i] < n && in_window(t, top_k, n, w[i] as int) by {
        assert(pred(w[i]));
        let k = choose|k: int| 0 <= k < top_k && #[trigger] ((t + k) % n) == w[i] as int;
    }
    // The window is not empty: it holds t mod n.
    let v0 = (t % n) as usize;
    assert(in_window(t, top_k, n, v0 as int)) by {
        assert((t + 0) % n == v0 as int);
    }
    assert(base[v0 as int] == v0);
    assert(w.contains(v0));
    // The window has at most top_k members, and exactly top_k when
    // top_k <= n.
    let offsets = Seq::new(top_k as nat, |k: int| ((t + k) % n) as usize);
    assert(w.no_duplicates());
    w.unique_seq_to_set();
    assert(w.to_set().subset_of(offsets.to_set())) by {
        assert forall|x: usize| w.to_set().contains(x) implies offsets.to_set().contains(x) by {
            let i = choose|i: int| 0 <= i < w.len() && w[i] == x;
            let k = choose|k: int| 0 <= k < top_k && #[trigger] ((t + k) % n) == w[i] as int;
            assert(offsets[k] == x);
        }
    }
    vstd::set_lib::lemma_len_subset(w.to_set(), offsets.to_set());
    offsets.lemma_cardinality_of_set();
    assert(w.len() <= top_k);
    if top_k <= n {
        assert(offsets.no_duplicates()) by {
            assert forall|a: int, b: int| 0 <= a < offsets.len() && 0 <= b < offsets.len() && a != b implies offsets[a]
                != offsets[b] by {
                if a < b {
                    lemma_window_distinct(t, n, a, b);
                } else {
                    lemma_window_distinct(t, n, b, a);
                }
            }
        }
        offsets.unique_seq_to_set();
        assert(offsets.to_set().subset_of(w.to_set())) by {
            assert forall|x: usize| offsets.to_set().contains(x) implies w.to_set().contains(x) by {
                let k = choose|k: int| 0 <= k < offsets.len() && offsets[k] == x;
                assert(in_window(t, top_k, n, x as int)) by {
                    assert((t + k) % n == x as int);
                }
                assert(base[x as int] == x);
                assert(w.contains(x));
            }
        }
        vstd::set_lib::lemma_len_subset(offsets.to_set(), w.to_set());
        assert(w.len() == top_k);
    }
    let r = route(t, top_k, n);
    if w.len() < top_k {
        assert forall|i: int| 0 <= i < top_k implies #[trigger] r[i] < n && in_window(t, top_k, n, r[i] as int) by {
            if i >= w.len() {
                assert(r[i] == w[0]);
            } else {
                assert(r[i] == w[i]);
            }
        }
    }
}

/// Whether expert `v` is among `(t + k) mod n` for `k < top_k`.
fn in_window_exec(t: usize, top_k: usize, n: usize, v: usize) -> (r: bool)
    requires
        n > 0,
        top_k == 0 || t + top_k - 1 <= usize::MAX,
    ensures
        r == in_window(t as int, top_k as int, n as int, v as int),
{
    let mut k: usize = 0;
    while k < top_k
        invariant
            k <= top_k,
            n > 0,
            top_k == 0 || t + top_k - 1 <= usize::MAX,
            forall|j: int| 0 <= j < k ==> #[trigger] ((t + j) % (n as int)) != v,
        decreases top_k - k,
    {
        if (t + k) % n == v {
            assert(((t + k) as int) % (n as int) == v as int);
            return true;
        }
        k = k + 1;
    }
    false
}

/// The experts token `t` is routed to.
fn route_token(t: usize, top_k: usize, n: usize) -> (r: Vec<usize>)
    requires
        n > 0 || top_k == 0,
        top_k == 0 || t + top_k - 1 <= usize::MAX,
    ensures
        r@ == route(t as int, top_k as int, n as int),
{
    let ghost p = |v: usize| in_window(t as int, top_k as int, n as int, v as int);
    let mut w: Vec<usize> = Vec::new();
    if n > 0 {
        let mut v: usize = 0;
        while v < n
            invariant
                v <= n,
                n > 0,
                top_k == 0 || t + top_k - 1 <= usize::MAX,
                p == (|v: usize| in_window(t as int, top_k as int, n as int, v as int)),
                w@ == Seq::new(v as nat, |x: int| x as usize).filter(p),
            decreases n - v,
        {
            proof {
                reveal(Seq::filter);
                assert(Seq::new((v + 1) as nat, |x: int| x as usize).drop_last() =~= Seq::new(v as nat, |x: int| x as usize));
            }
            if in_window_exec(t, top_k, n, v) {
                w.push(v);
            }
            v = v + 1;
        }
    } else {
        proof {
            reveal(Seq::filter);
            assert(Seq::new(0, |x: int| x as usize).filter(p) =~= Seq::<usize>::empty());
        }
    }
    let ghost base = w@;
    if w.len() > 0 {
        let first = w[0];
        while w.len() < top_k
            invariant
                base.len() > 0,
                first == base[0],
                w@.len() >= base.len(),
                base.len() < top_k ==> w@.len() <= top_k,
                base.len() >= top_k ==> w@.len() == base.len(),
                w@ == base + Seq::new((w@.len() - base.len()) as nat, |i: int| first),
            decreases top_k - w@.len(),
        {
            w.push(first);
            assert(w@ =~= base + Seq::new((w@.len() - base.len()) as nat, |i: int| first));
        }
        proof {
            if base.len() < top_k {
                assert(w@ =~= base + Seq::new((top_k - base.len()) as nat, |i: int| base[0]));
            } else {
                assert(w@ =~= base);
            }
        }
    }
    w
}

/// Result of routing tokens to experts.
#[derive(Debug)]
pub struct ExpertSelection {
    /// Selected expert indices per token.
    pub expert_indices: Vec<Vec<usize>>,
    /// Each expert used, once, with its number of assignments.
    pub expert_counts: Vec<(usize, usize)>,
}

impl ExpertSelection {
    /// The experts needed, each once.
    pub fn needed_experts(&self) -> (r: Vec<usize>)
        ensures
            r@.len() == self.expert_counts@.len(),
            forall|i: int| 0 <= i < r@.len() ==> r@[i] == self.expert_counts@[i].0,
    {
        let mut out: Vec<usize> = Vec::new();
        let mut i: usize = 0;
        while i < self.expert_counts.len()
            invariant
                i <= self.expert_counts@.len(),
                out@.len() == i,
                forall|j: int| 0 <= j < i ==> out@[j] == self.expert_counts@[j].0,
            decreases self.expert_counts@.len() - i,
        {
            out.push(self.expert_counts[i].0);
            i = i + 1;
        }
        out
    }

    /// Whether an expert is needed.
    pub fn needs_expert(&self, expert_id: usize) -> (r: bool)
        ensures
            r == exists|i: int| 0 <= i < self.expert_counts@.len() && self.expert_counts@[i].0 == expert_id,
    {
        let mut i: usize = 0;
        while i < self.expert_counts.len()
            invariant
                i <= self.expert_counts@.len(),
                forall|j: int| 0 <= j < i ==> self.expert_counts@[j].0 != expert_id,
            decreases self.expert_counts@.len() - i,
        {
            if self.expert_counts[i].0 == expert_id {
                return true;
            }
            i = i + 1;
        }
        false
    }

    /// Number of tokens routed.
    pub fn total_tokens(&self) -> (r: usize)
        ensures
            r == self.expert_indices@.len(),
    {
        self.expert_indices.len()
    }
}

/// MoE kernel errors.
#[derive(Debug)]
pub enum MoeError {
    /// Invalid tensor shape.
    InvalidShape(String),
    /// Expert not loaded.
    ExpertNotLoaded(usize),
    /// Allocation failed.
    AllocationFailed(String),
    /// Kernel execution failed.
    ExecutionFailed(String),
}

impl MoeError {
    /// The text the error displays.
    pub open spec fn message_spec(&self) -> Seq<char> {
        match self {
            MoeError::InvalidShape(m) => "Invalid tensor shape: "@ + m@,
            MoeError::ExpertNotLoaded(e) => "Expert "@ + decimal(*e as nat) + " not loaded"@,
            MoeError::AllocationFailed(m) => "Allocation failed: "@ + m@,
            MoeError::ExecutionFailed(m) => "Kernel execution failed: "@ + m@,
        }
    }

    /// The error's message, as its `Display` writes it.
    pub fn message(&self) -> (r: String)
        ensures
            r@ == self.message_spec(),
    {
        let mut s = String::new();
        proof {
            reveal_strlit("Invalid tensor shape: ");
            reveal_strlit("Expert ");
            reveal_strlit(" not loaded");
            reveal_strlit("Allocation failed: ");
            reveal_strlit("Kernel execution failed: ");
        }
        match self {
            MoeError::InvalidShape(m) => {
                s.append("Invalid tensor shape: ");
                s.append(m.as_str());
            },
            MoeError::ExpertNotLoaded(e) => {
                s.append("Expert ");
                crate::text::push_decimal(&mut s, *e as u64);
                s.append(" not loaded");
            },
            MoeError::AllocationFailed(m) => {
                s.append("Allocation failed: ");
                s.append(m.as_str());
            },
            MoeError::ExecutionFailed(m) => {
                s.append("Kernel execution failed: ");
                s.append(m.as_str());
            },
        }
        s
    }
}

/// Weights of one expert.
#[derive(Debug)]
pub struct ExpertWeights {
    /// Up projection.
    pub up_weight: GpuBuffer,
    /// Gate projection (for gated).
    pub gate_weight: Option<GpuBuffer>,
    /// Down projection.
    pub down_weight: GpuBuffer,
}

/// Whether the weights of expert `e` are among `ws`.
pub open spec fn is_loaded(ws: Seq<(usize, ExpertWeights)>, e: usize) -> bool {
    exists|j: int| 0 <= j < ws.len() && #[trigger] ws[j].0 == e
}

/// MoE kernel for a device.
#[derive(Debug)]
pub struct MoeKernel {
    config: MoeConfig,
    device: i32,
    /// The state holding each registered expert's weights.
    expert_states: Vec<(usize, StateId)>,
}

/// The routes of the first `count` tokens.
pub open spec fn routes(count: int, top_k: int, n: int) -> Seq<Seq<usize>> {
    Seq::new(count as nat, |t: int| route(t, top_k, n))
}

impl MoeKernel {
    /// The configuration.
    pub closed spec fn spec_config(&self) -> MoeConfig {
        self.config
    }

    /// The experts registered with their states (the last registration of
    /// an expert wins).
    pub closed spec fn spec_experts(&self) -> Seq<(usize, StateId)> {
        self.expert_states@
    }

    /// The device index.
    pub closed spec fn spec_device(&self) -> i32 {
        self.device
    }

    /// Create a new MoE kernel.
    pub fn new(device: i32, config: MoeConfig) -> (r: Self)
        ensures
            r.spec_config() == config,
            r.spec_device() == device,
            r.spec_experts().len() == 0,
    {
        MoeKernel { config, device, expert_states: Vec::new() }
    }

    /// Get configuration.
    pub fn config(&self) -> (r: &MoeConfig)
        ensures
            *r == self.spec_config(),
    {
        &self.config
    }

    /// Register the state holding an expert's weights.
    pub fn register_expert(&mut self, expert_id: usize, state_id: StateId)
        ensures
            final(self).spec_experts() == old(self).spec_experts().push((expert_id, state_id)),
            final(self).spec_config() == old(self).spec_config(),
    {
        self.expert_states.push((expert_id, state_id));
    }

    /// The state of an expert: from its last registration.
    pub fn expert_state(&self, expert_id: usize) -> (r: Option<StateId>)
        ensures
            r is Some == exists|i: int| 0 <= i < self.spec_experts().len() && self.spec_experts()[i].0 == expert_id,
            r matches Some(s) ==> exists|i: int|
                0 <= i < self.spec_experts().len() && self.spec_experts()[i].0 == expert_id
                    && self.spec_experts()[i].1 == s && forall|j: int|
                    i < j < self.spec_experts().len() ==> self.spec_experts()[j].0 != expert_id,
    {
        let mut k: usize = self.expert_states.len();
        while k > 0
            invariant
                k <= self.spec_experts().len(),
                forall|j: int| k <= j < self.spec_experts().len() ==> self.spec_experts()[j].0 != expert_id,
            decreases k,
        {
            if self.expert_states[k - 1].0 == expert_id {
                let s = self.expert_states[k - 1].1.clone();
                return Some(s);
            }
            k = k - 1;
        }
        None
    }

    /// Route every token of a [batch, seq, hidden] input to its experts,
    /// and tally how often each expert is used.
    pub fn compute_routing(&self, hidden_states: &GpuBuffer, router_weights: &GpuBuffer) -> (r: Result<
        ExpertSelection,
        MoeError,
    >)
        requires
            self.spec_config().num_experts > 0 || self.spec_config().top_k == 0,
            hidden_states.spec_shape().len() == 3 ==> ({
                let t = hidden_states.spec_shape()[0] * hidden_states.spec_shape()[1];
                &&& t <= usize::MAX
                &&& self.spec_config().top_k == 0 || t + self.spec_config().top_k - 1 <= usize::MAX
                &&& t * (self.spec_config().top_k + self.spec_config().num_experts) < usize::MAX
            }),
        ensures
            hidden_states.spec_shape().len() != 3 ==> (r matches Err(MoeError::InvalidShape(m)) && m@
                == "Expected 3D input [batch, seq, hidden]"@),
            hidden_states.spec_shape().len() == 3 ==> (r matches Ok(sel) && ({
                let t = hidden_states.spec_shape()[0] * hidden_states.spec_shape()[1];
                let rs = routes(t, self.spec_config().top_k as int, self.spec_config().num_experts as int);
                &&& sel.expert_indices@.len() == t
                &&& forall|i: int| 0 <= i < t ==> (#[trigger] sel.expert_indices@[i])@ == rs[i]
                &&& tallies(sel.expert_counts@, flat(rs))
            })),
    {
        let shape = hidden_states.shape();
        if shape.len() != 3 {
            proof {
                reveal_strlit("Expected 3D input [batch, seq, hidden]");
            }
            return Err(MoeError::InvalidShape(String::from_str("Expected 3D input [batch, seq, hidden]")));
        }
        let total_tokens = shape[0] * shape[1];
        let top_k = self.config.top_k;
        let n = self.config.num_experts;
        let ghost rs = routes(total_tokens as int, top_k as int, n as int);
        let mut expert_indices: Vec<Vec<usize>> = Vec::new();
        let mut expert_counts: Vec<(usize, usize)> = Vec::new();
        let mut t: usize = 0;
        proof {
            assert(rs.take(0) =~= Seq::<Seq<usize>>::empty());
        }
        while t < total_tokens
            invariant
                t <= total_tokens,
                n > 0 || top_k == 0,
                top_k == 0 || total_tokens + top_k - 1 <= usize::MAX,
                total_tokens * (top_k + n) < usize::MAX,
                rs == routes(total_tokens as int, top_k as int, n as int),
                expert_indices@.len() == t,
                forall|i: int| 0 <= i < t ==> (#[trigger] expert_indices@[i])@ == rs[i],
                tallies(expert_counts@, flat(rs.take(t as int))),
                flat(rs.take(t as int)).len() <= t * (top_k + n),
            decreases total_tokens - t,
        {
            let sel = route_token(t, top_k, n);
            let ghost pre = flat(rs.take(t as int));
            proof {
                lemma_route_len(t as int, top_k as int, n as int);
                assert(rs.take(t + 1).drop_last() =~= rs.take(t as int));
                assert(rs.take(t + 1).last() == sel@);
                assert((t + 1) * (top_k + n) == t * (top_k + n) + (top_k + n)) by (nonlinear_arith);
                assert((t + 1) * (top_k + n) <= total_tokens * (top_k + n)) by (nonlinear_arith)
                    requires
                        t + 1 <= total_tokens,
                ;
            }
            let mut j: usize = 0;
            while j < sel.len()
                invariant
                    j <= sel@.len(),
                    sel@.len() <= top_k + n,
                    pre.len() + sel@.len() < usize::MAX,
                    tallies(expert_counts@, pre + sel@.take(j as int)),
                decreases sel@.len() - j,
            {
                proof {
                    assert((pre + sel@.take(j as int)).push(sel@[j as int]) =~= pre + sel@.take(j + 1));
                }
                tally(&mut expert_counts, sel[j], Ghost(pre + sel@.take(j as int)));
                j = j + 1;
            }
            proof {
                assert(sel@.take(j as int) =~= sel@);
                assert(flat(rs.take(t + 1)) =~= pre + sel@);
            }
            expert_indices.push(sel);
            t = t + 1;
        }
        proof {
            assert(rs.take(t as int) =~= rs);
        }
        Ok(ExpertSelection { expert_indices, expert_counts })
    }

    /// Forward pass: every expert the selection needs must be loaded; the
    /// output, of the input's shape, is allocated on the device.
    pub fn forward(
        &self,
        device: &mut CudaDevice,
        hidden_states: &GpuBuffer,
        selection: &ExpertSelection,
        expert_weights: &Vec<(usize, ExpertWeights)>,
    ) -> (r: Result<GpuBuffer, MoeError>)
        requires
            product_fits(hidden_states.spec_shape()),
            bytes_of(shape_product(hidden_states.spec_shape()), self.spec_config().dtype)
                <= usize::MAX,
        ensures
            (exists|i: int|
                0 <= i < selection.expert_counts@.len() && !is_loaded(
                    expert_weights@,
                    #[trigger] selection.expert_counts@[i].0,
                )) ==> (r matches Err(MoeError::ExpertNotLoaded(e)) && !is_loaded(expert_weights@, e)
                && exists|i: int|
                0 <= i < selection.expert_counts@.len() && #[trigger] selection.expert_counts@[i].0 == e),
            (forall|i: int|
                0 <= i < selection.expert_counts@.len() ==> is_loaded(
                    expert_weights@,
                    #[trigger] selection.expert_counts@[i].0,
                )) ==> (r is Ok <==> bytes_of(
                shape_product(hidden_states.spec_shape()),
                self.spec_config().dtype,
            ) <= old(device).spec_free()),
            r matches Ok(out) ==> out.spec_shape() == hidden_states.spec_shape()
                && out.spec_dtype() == self.spec_config().dtype,
            r is Err ==> final(device).allocated() == old(device).allocated(),
            final(device).spec_index() == old(device).spec_index(),
    {
        let needed = selection.needed_experts();
        let mut i: usize = 0;
        while i < needed.len()
            invariant
                i <= needed@.len(),
                needed@.len() == selection.expert_counts@.len(),
                forall|x: int| 0 <= x < needed@.len() ==> needed@[x] == selection.expert_counts@[x].0,
                forall|x: int| 0 <= x < i ==> is_loaded(expert_weights@, #[trigger] selection.expert_counts@[x].0),
            decreases needed@.len() - i,
        {
            let e = needed[i];
            let mut found = false;
            let mut j: usize = 0;
            while j < expert_weights.len()
                invariant
                    j <= expert_weights@.len(),
                    found ==> exists|y: int| 0 <= y < expert_weights@.len() && expert_weights@[y].0 == e,
                    !found ==> forall|y: int| 0 <= y < j ==> expert_weights@[y].0 != e,
                decreases expert_weights@.len() - j,
            {
                if expert_weights[j].0 == e {
                    found = true;
                }
                j = j + 1;
            }
            if !found {
                proof {
                    assert(selection.expert_counts@[i as int].0 == e);
                }
                return Err(MoeError::ExpertNotLoaded(e));
            }
            i = i + 1;
        }
        match GpuBuffer::allocate(device, self.config.dtype, hidden_states.shape()) {
            Ok(out) => Ok(out),
            Err(e) => Err(MoeError::AllocationFailed(e.message())),
        }
    }

    /// FLOPs of a forward pass: the router (tokens x hidden x experts x 2)
    /// plus top-k expert MLPs per token (tokens x top_k x hidden x
    /// intermediate x 2, times 3 when gated or 2 otherwise).
    pub open spec fn spec_flops(&self, batch_size: int, seq_len: int) -> int {
        let c = self.spec_config();
        let tokens = batch_size * seq_len;
        tokens * c.hidden_dim * c.num_experts * 2 + tokens * c.top_k * c.hidden_dim
            * c.expert_intermediate_dim * 2 * (if c.gated {
            3int
        } else {
            2int
        })
    }

    /// Estimate FLOPs for a forward pass.
    pub fn estimate_flops(&self, batch_size: usize, seq_len: usize) -> (r: u64)
        requires
            ({
                let c = self.spec_config();
                let tokens = batch_size * seq_len;
                &&& tokens <= u64::MAX
                &&& tokens * c.hidden_dim <= u64::MAX
                &&& tokens * c.hidden_dim * c.num_experts <= u64::MAX
                &&& tokens * c.hidden_dim * c.num_experts * 2 <= u64::MAX
                &&& tokens * c.top_k <= u64::MAX
                &&& tokens * c.top_k * c.hidden_dim <= u64::MAX
                &&& tokens * c.top_k * c.hidden_dim * c.expert_intermediate_dim <= u64::MAX
                &&& tokens * c.top_k * c.hidden_dim * c.expert_intermediate_dim * 2 <= u64::MAX
                &&& tokens * c.top_k * c.hidden_dim * c.expert_intermediate_dim * 2 * (if c.gated {
                    3int
                } else {
                    2int
                }) <= u64::MAX
                &&& self.spec_flops(batch_size as int, seq_len as int) <= u64::MAX
            }),
        ensures
            r == self.spec_flops(batch_size as int, seq_len as int),
    {
        let tokens = batch_size as u64 * seq_len as u64;
        let hidden = self.config.hidden_dim as u64;
        let intermediate = self.config.expert_intermediate_dim as u64;
        let top_k = self.config.top_k as u64;
        let router_flops = tokens * hidden * self.config.num_experts as u64 * 2;
        let multiplier: u64 = if self.config.gated {
            3
        } else {
            2
        };
        let expert_flops = tokens * top_k * hidden * intermediate * 2 * multiplier;
        router_flops + expert_flops
    }

    /// The experts predicted for the next tokens: the first
    /// `min(top_k, num_experts)` experts.
    pub fn predict_experts(&self, context: &[usize]) -> (r: Vec<usize>)
        ensures
            r@.len() == (if self.spec_config().top_k <= self.spec_config().num_experts {
                self.spec_config().top_k
            } else {
                self.spec_config().num_experts
            }),
            forall|i: int| 0 <= i < r@.len() ==> r@[i] == i,
    {
        let m = if self.config.top_k <= self.config.num_experts {
            self.config.top_k
        } else {
            self.config.num_experts
        };
        let mut out: Vec<usize> = Vec::new();
        let mut i: usize = 0;
        while i < m
            invariant
                i <= m,
                out@.len() == i,
                forall|j: int| 0 <= j < i ==> out@[j] == j,
            decreases m - i,
        {
            out.push(i);
            i = i + 1;
        }
        out
    }
}

} // verus!
