//! The registry of a device's compute kernels, one per kernel identifier.
//! Registering under an identifier replaces what was there; nothing else
//! changes.

use vstd::prelude::*;
use crate::attention::{AttentionConfig, AttentionKernel};
use crate::mlp::{MlpConfig, MlpKernel};
use crate::moe::{MoeConfig, MoeKernel};
use crate::norm::{LayerNormKernel, RmsNormKernel};
use crate::sampling::SamplingKernel;
use crate::types::DType;

verus! {

/// Kernel identifier.
#[derive(Debug, Clone, Copy, PartialEq, Eq, Hash, Structural)]
pub enum KernelId {
    /// Attention of a layer.
    Attention(usize),
    /// MLP of a layer.
    Mlp(usize),
    /// Mixture of experts of a layer.
    Moe(usize),
    /// LayerNorm of a layer.
    LayerNorm(usize),
    /// RMSNorm of a layer.
    RmsNorm(usize),
    /// The sampler.
    Sampling,
}

/// Registered kernel types.
#[derive(Debug)]
pub enum RegisteredKernel {
    /// An attention kernel.
    Attention(AttentionKernel),
    /// An MLP kernel.
    Mlp(MlpKernel),
    /// A mixture-of-experts kernel.
    Moe(MoeKernel),
    /// A LayerNorm kernel.
    LayerNorm(LayerNormKernel),
    /// An RMSNorm kernel.
    RmsNorm(RmsNormKernel),
    /// A sampling kernel.
    Sampling(SamplingKernel),
}

/// No identifier occurs twice among the entries.
pub open spec fn ids_unique(s: Seq<(KernelId, RegisteredKernel)>) -> bool {
    forall|i: int, j: int| 0 <= i < s.len() && 0 <= j < s.len() && i != j ==> #[trigger] s[i].0
        != #[trigger] s[j].0
}

/// Some entry has the identifier.
pub open spec fn has_id(s: Seq<(KernelId, RegisteredKernel)>, id: KernelId) -> bool {
    exists|i: int| 0 <= i < s.len() && #[trigger] s[i].0 == id
}

/// The kernel registered under an identifier, if any.
pub open spec fn lookup(s: Seq<(KernelId, RegisteredKernel)>, id: KernelId) -> Option<
    RegisteredKernel,
> {
    if has_id(s, id) {
        Some(s[choose|i: int| 0 <= i < s.len() && #[trigger] s[i].0 == id].1)
    } else {
        None
    }
}

/// With unique identifiers, an entry is what its identifier finds.
proof fn lemma_lookup_at(s: Seq<(KernelId, RegisteredKernel)>, i: int)
    requires
        ids_unique(s),
        0 <= i < s.len(),
    ensures
        lookup(s, s[i].0) == Some(s[i].1),
{
    assert(has_id(s, s[i].0));
    let j = choose|j: int| 0 <= j < s.len() && #[trigger] s[j].0 == s[i].0;
    assert(j == i);
}

/// Some entry of `t` is `e`.
pub open spec fn found_in(t: Seq<(KernelId, RegisteredKernel)>, e: (KernelId, RegisteredKernel)) -> bool {
    exists|j: int| 0 <= j < t.len() && t[j] == e
}

/// Two entry lists with unique identifiers that hold the same entries for
/// an identifier find the same kernel under it.
proof fn lemma_lookup_same(
    s: Seq<(KernelId, RegisteredKernel)>,
    t: Seq<(KernelId, RegisteredKernel)>,
    id: KernelId,
)
    requires
        ids_unique(s),
        ids_unique(t),
        forall|i: int| 0 <= i < s.len() && s[i].0 == id ==> found_in(t, #[trigger] s[i]),
        forall|j: int| 0 <= j < t.len() && t[j].0 == id ==> found_in(s, #[trigger] t[j]),
    ensures
        lookup(s, id) == lookup(t, id),
{
    if has_id(s, id) {
        let i = choose|i: int| 0 <= i < s.len() && #[trigger] s[i].0 == id;
        assert(found_in(t, s[i]));
        let j = choose|j: int| 0 <= j < t.len() && t[j] == s[i];
        lemma_lookup_at(s, i);
        lemma_lookup_at(t, j);
    } else if has_id(t, id) {
        let j = choose|j: int| 0 <= j < t.len() && #[trigger] t[j].0 == id;
        assert(found_in(s, t[j]));
        let i = choose|i: int| 0 <= i < s.len() && s[i] == t[j];
        assert(s[i].0 == id);
    }
}

/// Kernel registry for a device's compute kernels.
#[derive(Debug)]
pub struct KernelRegistry {
    device: i32,
    kernels: Vec<(KernelId, RegisteredKernel)>,
}

impl KernelRegistry {
    /// The device index.
    pub closed spec fn spec_device(&self) -> i32 {
        self.device
    }

    /// The registered entries.
    pub closed spec fn entries(&self) -> Seq<(KernelId, RegisteredKernel)> {
        self.kernels@
    }

    /// Well-formed: one entry per identifier.
    pub open spec fn wf(&self) -> bool {
        ids_unique(self.entries())
    }

    /// An identifier has a kernel.
    pub open spec fn contains(&self, id: KernelId) -> bool {
        has_id(self.entries(), id)
    }

    /// The kernel registered under an identifier, if any.
    pub open spec fn kernel(&self, id: KernelId) -> Option<RegisteredKernel> {
        lookup(self.entries(), id)
    }

    /// Number of registered kernels.
    pub open spec fn count(&self) -> nat {
        self.entries().len()
    }

    /// `new` is `old` with a kernel registered under `id`: every other
    /// identifier keeps its kernel, and the count grows by one when `id`
    /// was new.
    pub open spec fn replaced(old: &Self, new: &Self, id: KernelId) -> bool {
        &&& new.wf()
        &&& new.spec_device() == old.spec_device()
        &&& new.contains(id)
        &&& forall|other: KernelId| other != id ==> #[trigger] new.kernel(other) == old.kernel(other)
        &&& new.count() == old.count() + (if old.contains(id) {
            0int
        } else {
            1int
        })
    }

    /// Create a new kernel registry for a device.
    pub fn new(device: i32) -> (r: Self)
        ensures
            r.wf(),
            r.spec_device() == device,
            r.count() == 0,
            forall|id: KernelId| #[trigger] r.kernel(id) is None,
    {
        KernelRegistry { device, kernels: Vec::new() }
    }

    /// The position of an identifier's entry.
    fn position(&self, id: &KernelId) -> (r: Option<usize>)
        ensures
            r is None <==> !self.contains(*id),
            r matches Some(i) ==> i < self.entries().len() && self.entries()[i as int].0 == *id,
    {
        let mut i: usize = 0;
        while i < self.kernels.len()
            invariant
                i <= self.kernels@.len(),
                forall|j: int| 0 <= j < i ==> #[trigger] self.kernels@[j].0 != *id,
            decreases self.kernels@.len() - i,
        {
            if self.kernels[i].0 == *id {
                return Some(i);
            }
            i = i + 1;
        }
        None
    }

    /// Register a kernel under an identifier, replacing any there.
    fn insert(&mut self, id: KernelId, kernel: RegisteredKernel)
        requires
            old(self).wf(),
        ensures
            Self::replaced(&*old(self), &*final(self), id),
            final(self).kernel(id) == Some(kernel),
    {
        let ghost s = self.kernels@;
        match self.position(&id) {
            Some(i) => {
                self.kernels.set(i, (id, kernel));
                proof {
                    let t = self.kernels@;
                    assert(t == s.update(i as int, (id, kernel)));
                    lemma_lookup_at(t, i as int);
                    assert forall|other: KernelId| other != id implies #[trigger] lookup(t, other)
                        == lookup(s, other) by {
                        assert forall|a: int| 0 <= a < s.len() && s[a].0 == other implies found_in(t, s[a]) by {
                            assert(t[a] == s[a]);
                        }
                        assert forall|b: int| 0 <= b < t.len() && t[b].0 == other implies found_in(s, t[b]) by {
                            assert(s[b] == t[b]);
                        }
                        lemma_lookup_same(s, t, other);
                    }
                    assert(has_id(t, id));
                }
            },
            None => {
                self.kernels.push((id, kernel));
                proof {
                    let t = self.kernels@;
                    assert(t == s.push((id, kernel)));
                    lemma_lookup_at(t, s.len() as int);
                    assert forall|other: KernelId| other != id implies #[trigger] lookup(t, other)
                        == lookup(s, other) by {
                        assert forall|a: int| 0 <= a < s.len() && s[a].0 == other implies found_in(t, s[a]) by {
                            assert(t[a] == s[a]);
                        }
                        assert forall|b: int| 0 <= b < t.len() && t[b].0 == other implies found_in(s, t[b]) by {
                            assert(s[b] == t[b]);
                        }
                        lemma_lookup_same(s, t, other);
                    }
                    assert(has_id(t, id));
                }
            },
        }
    }

    /// Register an attention kernel for a layer.
    pub fn register_attention(&mut self, layer_id: usize, config: AttentionConfig)
        requires
            old(self).wf(),
        ensures
            Self::replaced(&*old(self), &*final(self), KernelId::Attention(layer_id)),
            final(self).kernel(KernelId::Attention(layer_id)) matches Some(
                RegisteredKernel::Attention(k),
            ) && k.spec_config() == config && k.spec_device() == old(self).spec_device(),
    {
        let kernel = AttentionKernel::new(self.device, config);
        self.insert(KernelId::Attention(layer_id), RegisteredKernel::Attention(kernel));
    }

    /// Register an MLP kernel for a layer.
    pub fn register_mlp(&mut self, layer_id: usize, config: MlpConfig)
        requires
            old(self).wf(),
        ensures
            Self::replaced(&*old(self), &*final(self), KernelId::Mlp(layer_id)),
            final(self).kernel(KernelId::Mlp(layer_id)) matches Some(RegisteredKernel::Mlp(k))
                && k.spec_config() == config && k.spec_device() == old(self).spec_device(),
    {
        let kernel = MlpKernel::new(self.device, config);
        self.insert(KernelId::Mlp(layer_id), RegisteredKernel::Mlp(kernel));
    }

    /// Register a MoE kernel for a layer.
    pub fn register_moe(&mut self, layer_id: usize, config: MoeConfig)
        requires
            old(self).wf(),
        ensures
            Self::replaced(&*old(self), &*final(self), KernelId::Moe(layer_id)),
            final(self).kernel(KernelId::Moe(layer_id)) matches Some(RegisteredKernel::Moe(k))
                && k.spec_config() == config && k.spec_device() == old(self).spec_device()
                && k.spec_experts().len() == 0,
    {
        let kernel = MoeKernel::new(self.device, config);
        self.insert(KernelId::Moe(layer_id), RegisteredKernel::Moe(kernel));
    }

    /// Register a LayerNorm kernel for a layer.
    pub fn register_layer_norm(&mut self, layer_id: usize, hidden_dim: usize, dtype: DType)
        requires
            old(self).wf(),
        ensures
            Self::replaced(&*old(self), &*final(self), KernelId::LayerNorm(layer_id)),
            final(self).kernel(KernelId::LayerNorm(layer_id)) matches Some(
                RegisteredKernel::LayerNorm(k),
            ) && k.spec_hidden_dim() == hidden_dim && k.spec_dtype() == dtype && k.spec_device()
                == old(self).spec_device(),
    {
        let kernel = LayerNormKernel::new(self.device, hidden_dim, dtype);
        self.insert(KernelId::LayerNorm(layer_id), RegisteredKernel::LayerNorm(kernel));
    }

    /// Register an RMSNorm kernel for a layer.
    pub fn register_rms_norm(&mut self, layer_id: usize, hidden_dim: usize, dtype: DType)
        requires
            old(self).wf(),
        ensures
            Self::replaced(&*old(self), &*final(self), KernelId::RmsNorm(layer_id)),
            final(self).kernel(KernelId::RmsNorm(layer_id)) matches Some(
                RegisteredKernel::RmsNorm(k),
            ) && k.spec_hidden_dim() == hidden_dim && k.spec_dtype() == dtype && k.spec_device()
                == old(self).spec_device(),
    {
        let kernel = RmsNormKernel::new(self.device, hidden_dim, dtype);
        self.insert(KernelId::RmsNorm(layer_id), RegisteredKernel::RmsNorm(kernel));
    }

    /// Register the sampling kernel.
    pub fn register_sampling(&mut self, vocab_size: usize, dtype: DType)
        requires
            old(self).wf(),
        ensures
            Self::replaced(&*old(self), &*final(self), KernelId::Sampling),
            final(self).kernel(KernelId::Sampling) matches Some(RegisteredKernel::Sampling(k))
                && k.spec_vocab_size() == vocab_size && k.spec_dtype() == dtype && k.spec_device()
                == old(self).spec_device(),
    {
        let kernel = SamplingKernel::new(self.device, vocab_size, dtype);
        self.insert(KernelId::Sampling, RegisteredKernel::Sampling(kernel));
    }

    /// The attention kernel of a layer, if one is registered.
    pub fn get_attention(&self, layer_id: usize) -> (r: Option<&AttentionKernel>)
        requires
            self.wf(),
        ensures
            r matches Some(k) ==> self.kernel(KernelId::Attention(layer_id)) == Some(
                RegisteredKernel::Attention(*k),
            ),
            r is None ==> !(self.kernel(KernelId::Attention(layer_id)) matches Some(
                RegisteredKernel::Attention(_),
            )),
    {
        match self.position(&KernelId::Attention(layer_id)) {
            Some(i) => {
                proof {
                    lemma_lookup_at(self.kernels@, i as int);
                }
                match &self.kernels[i].1 {
                    RegisteredKernel::Attention(k) => Some(k),
                    _ => None,
                }
            },
            None => None,
        }
    }

    /// Check if a kernel is registered.
    pub fn has_kernel(&self, id: &KernelId) -> (r: bool)
        ensures
            r == self.contains(*id),
    {
        self.position(id).is_some()
    }

    /// Remove a kernel; true when one was registered under the identifier.
    pub fn remove(&mut self, id: &KernelId) -> (r: bool)
        requires
            old(self).wf(),
        ensures
            r == old(self).contains(*id),
            final(self).wf(),
            final(self).spec_device() == old(self).spec_device(),
            final(self).kernel(*id) is None,
            forall|other: KernelId| other != *id ==> #[trigger] final(self).kernel(other) == old(
                self,
            ).kernel(other),
            final(self).count() == old(self).count() - (if r {
                1int
            } else {
                0int
            }),
    {
        let ghost s = self.kernels@;
        match self.position(id) {
            Some(i) => {
                let _removed = self.kernels.remove(i);
                proof {
                    let t = self.kernels@;
                    assert(t == s.remove(i as int));
                    assert forall|a: int, b: int|
                        0 <= a < t.len() && 0 <= b < t.len() && a != b implies #[trigger] t[a].0
                        != #[trigger] t[b].0 by {
                        let a2 = if a < i { a } else { a + 1 };
                        let b2 = if b < i { b } else { b + 1 };
                        assert(t[a] == s[a2]);
                        assert(t[b] == s[b2]);
                    }
                    assert forall|c: int| 0 <= c < t.len() implies #[trigger] t[c].0 != *id by {
                        let c2 = if c < i { c } else { c + 1 };
                        assert(t[c] == s[c2]);
                    }
                    assert forall|other: KernelId| other != *id implies #[trigger] lookup(t, other)
                        == lookup(s, other) by {
                        assert forall|a: int| 0 <= a < s.len() && s[a].0 == other implies found_in(t, s[a]) by {
                            if a < i {
                                assert(t[a] == s[a]);
                            } else {
                                assert(a != i);
                                assert(t[a - 1] == s[a]);
                            }
                        }
                        assert forall|b: int| 0 <= b < t.len() && t[b].0 == other implies found_in(s, t[b]) by {
                            let b2 = if b < i { b } else { b + 1 };
                            assert(s[b2] == t[b]);
                        }
                        lemma_lookup_same(s, t, other);
                    }
                }
                true
            },
            None => false,
        }
    }

    /// The identifiers that `register_transformer` writes for `layers`
    /// layers: each layer's attention, its feed-forward kernel (MoE when a
    /// MoE configuration is given, else MLP when one is given), and two
    /// RMSNorms per layer, numbered `2 * layer` and `2 * layer + 1`.
    pub open spec fn transformer_id(id: KernelId, layers: int, moe: bool, mlp: bool) -> bool {
        match id {
            KernelId::Attention(l) => l < layers,
            KernelId::Moe(l) => l < layers && moe,
            KernelId::Mlp(l) => l < layers && !moe && mlp,
            KernelId::RmsNorm(k) => k < 2 * layers,
            _ => false,
        }
    }

    /// What `register_transformer` leaves after its first `layers` layers.
    pub open spec fn transformer_done(
        old: &Self,
        new: &Self,
        layers: int,
        attention_config: AttentionConfig,
        mlp_config: Option<MlpConfig>,
        moe_config: Option<MoeConfig>,
        norm_hidden_dim: usize,
        dtype: DType,
    ) -> bool {
        &&& new.wf()
        &&& new.spec_device() == old.spec_device()
        &&& forall|l: usize| l < layers ==> ((#[trigger] new.kernel(KernelId::Attention(l))) matches Some(
            RegisteredKernel::Attention(k),
        ) && k.spec_config() == attention_config && k.spec_device() == old.spec_device())
        &&& forall|l: usize| l < layers && moe_config is Some ==> ((#[trigger] new.kernel(
            KernelId::Moe(l),
        )) matches Some(RegisteredKernel::Moe(k)) && k.spec_config() == moe_config->0
            && k.spec_device() == old.spec_device() && k.spec_experts().len() == 0)
        &&& forall|l: usize| l < layers && moe_config is None && mlp_config is Some ==> ((
        #[trigger] new.kernel(KernelId::Mlp(l))) matches Some(RegisteredKernel::Mlp(k))
            && k.spec_config() == mlp_config->0 && k.spec_device() == old.spec_device())
        &&& forall|k: usize| k < 2 * layers ==> ((#[trigger] new.kernel(KernelId::RmsNorm(k))) matches Some(
            RegisteredKernel::RmsNorm(n),
        ) && n.spec_hidden_dim() == norm_hidden_dim && n.spec_dtype() == dtype && n.spec_device()
            == old.spec_device())
        &&& forall|id: KernelId|
            !Self::transformer_id(id, layers, moe_config is Some, mlp_config is Some)
                ==> #[trigger] new.kernel(id) == old.kernel(id)
    }

    /// Register all kernels of a transformer: for each layer its attention,
    /// its feed-forward kernel (MoE if configured, else MLP if configured)
    /// and its two RMSNorms.
    pub fn register_transformer(
        &mut self,
        num_layers: usize,
        attention_config: AttentionConfig,
        mlp_config: Option<MlpConfig>,
        moe_config: Option<MoeConfig>,
        norm_hidden_dim: usize,
        dtype: DType,
    )
        requires
            old(self).wf(),
            2 * num_layers <= usize::MAX + 1,
        ensures
            Self::transformer_done(
                &*old(self),
                &*final(self),
                num_layers as int,
                attention_config,
                mlp_config,
                moe_config,
                norm_hidden_dim,
                dtype,
            ),
    {
        let ghost init = *self;
        let mut layer_id: usize = 0;
        while layer_id < num_layers
            invariant
                layer_id <= num_layers,
                2 * num_layers <= usize::MAX + 1,
                Self::transformer_done(
                    &init,
                    &*self,
                    layer_id as int,
                    attention_config,
                    mlp_config,
                    moe_config,
                    norm_hidden_dim,
                    dtype,
                ),
            decreases num_layers - layer_id,
        {
            let ghost before = *self;
            self.register_attention(layer_id, attention_config);
            let ghost s1 = *self;
            match moe_config {
                Some(config) => {
                    self.register_moe(layer_id, config);
                },
                None => {
                    match mlp_config {
                        Some(config) => {
                            self.register_mlp(layer_id, config);
                        },
                        None => {},
                    }
                },
            }
            let ghost s2 = *self;
            self.register_rms_norm(layer_id * 2, norm_hidden_dim, dtype);
            let ghost s3 = *self;
            self.register_rms_norm(layer_id * 2 + 1, norm_hidden_dim, dtype);
            proof {
                let n = layer_id as int + 1;
                let moe = moe_config is Some;
                let mlp = mlp_config is Some;
                assert forall|id: KernelId| !Self::transformer_id(id, n, moe, mlp) implies #[trigger] self.kernel(id)
                    == init.kernel(id) by {
                    assert(self.kernel(id) == s3.kernel(id));
                    assert(s3.kernel(id) == s2.kernel(id));
                    assert(s2.kernel(id) == s1.kernel(id));
                    assert(s1.kernel(id) == before.kernel(id));
                    assert(!Self::transformer_id(id, layer_id as int, moe, mlp));
                }
                assert forall|l: usize| l < n implies (#[trigger] self.kernel(
                    KernelId::Attention(l),
                )) matches Some(RegisteredKernel::Attention(k)) && k.spec_config()
                    == attention_config && k.spec_device() == init.spec_device() by {
                    if l < layer_id {
                        assert(before.kernel(KernelId::Attention(l)) == s1.kernel(KernelId::Attention(l)));
                    }
                    assert(self.kernel(KernelId::Attention(l)) == s3.kernel(KernelId::Attention(l)));
                    assert(s3.kernel(KernelId::Attention(l)) == s2.kernel(KernelId::Attention(l)));
                    assert(s2.kernel(KernelId::Attention(l)) == s1.kernel(KernelId::Attention(l)));
                }
                assert forall|l: usize| l < n && moe_config is Some implies (#[trigger] self.kernel(
                    KernelId::Moe(l),
                )) matches Some(RegisteredKernel::Moe(k)) && k.spec_config() == moe_config->0
                    && k.spec_device() == init.spec_device() && k.spec_experts().len() == 0 by {
                    if l < layer_id {
                        assert(before.kernel(KernelId::Moe(l)) == s1.kernel(KernelId::Moe(l)));
                        assert(s1.kernel(KernelId::Moe(l)) == s2.kernel(KernelId::Moe(l)));
                    }
                    assert(self.kernel(KernelId::Moe(l)) == s3.kernel(KernelId::Moe(l)));
                    assert(s3.kernel(KernelId::Moe(l)) == s2.kernel(KernelId::Moe(l)));
                }
                assert forall|l: usize| l < n && moe_config is None && mlp_config is Some implies (
                #[trigger] self.kernel(KernelId::Mlp(l))) matches Some(RegisteredKernel::Mlp(k))
                    && k.spec_config() == mlp_config->0 && k.spec_device() == init.spec_device() by {
                    if l < layer_id {
                        assert(before.kernel(KernelId::Mlp(l)) == s1.kernel(KernelId::Mlp(l)));
                        assert(s1.kernel(KernelId::Mlp(l)) == s2.kernel(KernelId::Mlp(l)));
                    }
                    assert(self.kernel(KernelId::Mlp(l)) == s3.kernel(KernelId::Mlp(l)));
                    assert(s3.kernel(KernelId::Mlp(l)) == s2.kernel(KernelId::Mlp(l)));
                }
                assert forall|k: usize| k < 2 * n implies (#[trigger] self.kernel(
                    KernelId::RmsNorm(k),
                )) matches Some(RegisteredKernel::RmsNorm(m)) && m.spec_hidden_dim()
                    == norm_hidden_dim && m.spec_dtype() == dtype && m.spec_device()
                    == init.spec_device() by {
                    if k < 2 * layer_id {
                        assert(before.kernel(KernelId::RmsNorm(k)) == s1.kernel(KernelId::RmsNorm(k)));
                        assert(s1.kernel(KernelId::RmsNorm(k)) == s2.kernel(KernelId::RmsNorm(k)));
                        assert(s2.kernel(KernelId::RmsNorm(k)) == s3.kernel(KernelId::RmsNorm(k)));
                        assert(s3.kernel(KernelId::RmsNorm(k)) == self.kernel(KernelId::RmsNorm(k)));
                    } else if k == 2 * layer_id {
                        assert(s3.kernel(KernelId::RmsNorm(k)) == self.kernel(KernelId::RmsNorm(k)));
                    }
                }
            }
            layer_id = layer_id + 1;
        }
    }

    /// Get number of registered kernels.
    pub fn len(&self) -> (r: usize)
        ensures
            r == self.count(),
    {
        self.kernels.len()
    }

    /// Check if registry is empty.
    pub fn is_empty(&self) -> (r: bool)
        ensures
            r == (self.count() == 0),
    {
        self.kernels.len() == 0
    }
}

/// Removing a kernel just registered under a new identifier gives back the
/// registry as it was: every identifier finds what it found before, and the
/// count is what it was.
pub proof fn law_remove_undoes_register(
    before: KernelRegistry,
    mid: KernelRegistry,
    after: KernelRegistry,
    id: KernelId,
)
    requires
        before.wf(),
        !before.contains(id),
        KernelRegistry::replaced(&before, &mid, id),
        after.kernel(id) is None,
        forall|other: KernelId| other != id ==> #[trigger] after.kernel(other) == mid.kernel(other),
        after.count() == mid.count() - 1,
    ensures
        forall|k: KernelId| #[trigger] after.kernel(k) == before.kernel(k),
        after.count() == before.count(),
{
    assert forall|k: KernelId| #[trigger] after.kernel(k) == before.kernel(k) by {
        if k != id {
            assert(mid.kernel(k) == before.kernel(k));
        }
    }
}

} // verus!
