//! Size estimates for a model given by its dimensions and the name of its
//! element type ("float16", "bfloat16", "float32" or "int8").

use vstd::prelude::*;

verus! {

/// The bytes per element of a named element type, if the name is known.
pub open spec fn dtype_name_size(name: Seq<char>) -> Option<int> {
    if name == "float16"@ || name == "bfloat16"@ {
        Some(2)
    } else if name == "float32"@ {
        Some(4)
    } else if name == "int8"@ {
        Some(1)
    } else {
        None
    }
}

/// The message of an unknown element type name.
pub open spec fn unknown_dtype_message(name: Seq<char>) -> Seq<char> {
    "Unknown dtype: "@ + name
}

/// Two strings have the same characters.
fn same_text(a: &str, b: &str) -> (r: bool)
    ensures
        r == (a@ == b@),
{
    let n = a.unicode_len();
    if n != b.unicode_len() {
        return false;
    }
    let mut i: usize = 0;
    while i < n
        invariant
            n == a@.len(),
            n == b@.len(),
            i <= n,
            forall|j: int| 0 <= j < i ==> a@[j] == b@[j],
        decreases n - i,
    {
        if a.get_char(i) != b.get_char(i) {
            return false;
        }
        i = i + 1;
    }
    assert(a@ =~= b@);
    true
}

/// The bytes per element of a named element type, or the error message.
fn dtype_size_named(dtype: &str) -> (r: Result<usize, String>)
    ensures
        dtype_name_size(dtype@) matches Some(n) ==> r == Ok::<usize, String>(n as usize),
        dtype_name_size(dtype@) is None ==> (r matches Err(m) && m@ == unknown_dtype_message(dtype@)),
{
    proof {
        reveal_strlit("float16");
        reveal_strlit("bfloat16");
        reveal_strlit("float32");
        reveal_strlit("int8");
        reveal_strlit("Unknown dtype: ");
    }
    if same_text(dtype, "float16") || same_text(dtype, "bfloat16") {
        Ok(2)
    } else if same_text(dtype, "float32") {
        Ok(4)
    } else if same_text(dtype, "int8") {
        Ok(1)
    } else {
        let mut m = String::new();
        m.append("Unknown dtype: ");
        m.append(dtype);
        Err(m)
    }
}

/// KV cache bytes: 2 (keys and values) x layers x batch x sequence x
/// KV heads x head dimension x element size.
pub open spec fn kv_cache_bytes(
    num_layers: int,
    num_kv_heads: int,
    head_dim: int,
    batch_size: int,
    seq_len: int,
    dtype_size: int,
) -> int {
    2 * num_layers * batch_size * seq_len * num_kv_heads * head_dim * dtype_size
}

/// Every partial product of the KV cache size fits in a `usize`.
pub open spec fn kv_cache_fits(
    num_layers: int,
    num_kv_heads: int,
    head_dim: int,
    batch_size: int,
    seq_len: int,
    dtype_size: int,
) -> bool {
    &&& 2 * num_layers <= usize::MAX
    &&& 2 * num_layers * batch_size <= usize::MAX
    &&& 2 * num_layers * batch_size * seq_len <= usize::MAX
    &&& 2 * num_layers * batch_size * seq_len * num_kv_heads <= usize::MAX
    &&& 2 * num_layers * batch_size * seq_len * num_kv_heads * head_dim <= usize::MAX
    &&& kv_cache_bytes(num_layers, num_kv_heads, head_dim, batch_size, seq_len, dtype_size)
        <= usize::MAX
}

/// Estimate the KV cache size in bytes; an unknown element type name is
/// refused with its message.
pub fn estimate_kv_cache_size(
    num_layers: usize,
    num_kv_heads: usize,
    head_dim: usize,
    batch_size: usize,
    seq_len: usize,
    dtype: &str,
) -> (r: Result<u64, String>)
    requires
        dtype_name_size(dtype@) matches Some(n) ==> kv_cache_fits(
            num_layers as int,
            num_kv_heads as int,
            head_dim as int,
            batch_size as int,
            seq_len as int,
            n,
        ),
    ensures
        dtype_name_size(dtype@) matches Some(n) ==> r == Ok::<u64, String>(
            kv_cache_bytes(
                num_layers as int,
                num_kv_heads as int,
                head_dim as int,
                batch_size as int,
                seq_len as int,
                n,
            ) as u64,
        ),
        dtype_name_size(dtype@) is None ==> (r matches Err(m) && m@ == unknown_dtype_message(dtype@)),
{
    let dtype_size = match dtype_size_named(dtype) {
        Ok(n) => n,
        Err(m) => {
            return Err(m);
        },
    };
    let size = 2 * num_layers * batch_size * seq_len * num_kv_heads * head_dim * dtype_size;
    Ok(size as u64)
}

/// Bytes of one layer: attention (4 x hidden^2) plus the feed-forward
/// network (3 x hidden x intermediate), once per expert and with a router
/// (hidden x experts) for a mixture of experts, all times the element size.
pub open spec fn layer_bytes(hidden: int, intermediate: int, experts: int, size: int) -> int {
    if experts > 0 {
        4 * hidden * hidden * size + 3 * hidden * intermediate * size * experts + hidden * experts
            * size
    } else {
        4 * hidden * hidden * size + 3 * hidden * intermediate * size
    }
}

/// Model bytes: the embedding (vocabulary x hidden) plus every layer.
pub open spec fn model_bytes(
    num_layers: int,
    hidden: int,
    intermediate: int,
    vocab: int,
    experts: int,
    size: int,
) -> int {
    vocab * hidden * size + num_layers * layer_bytes(hidden, intermediate, experts, size)
}

/// Every partial result of the model size fits in a `usize`.
pub open spec fn model_fits(
    num_layers: int,
    hidden: int,
    intermediate: int,
    vocab: int,
    experts: int,
    size: int,
) -> bool {
    &&& vocab * hidden <= usize::MAX
    &&& vocab * hidden * size <= usize::MAX
    &&& 4 * hidden <= usize::MAX
    &&& 4 * hidden * hidden <= usize::MAX
    &&& 4 * hidden * hidden * size <= usize::MAX
    &&& 3 * hidden <= usize::MAX
    &&& 3 * hidden * intermediate <= usize::MAX
    &&& 3 * hidden * intermediate * size <= usize::MAX
    &&& experts > 0 ==> {
        &&& 3 * hidden * intermediate * size * experts <= usize::MAX
        &&& hidden * experts <= usize::MAX
        &&& hidden * experts * size <= usize::MAX
        &&& 4 * hidden * hidden * size + 3 * hidden * intermediate * size * experts <= usize::MAX
    }
    &&& layer_bytes(hidden, intermediate, experts, size) <= usize::MAX
    &&& num_layers * layer_bytes(hidden, intermediate, experts, size) <= usize::MAX
    &&& model_bytes(num_layers, hidden, intermediate, vocab, experts, size) <= usize::MAX
}

/// Estimate the model size in bytes; an unknown element type name is
/// refused with its message.
pub fn estimate_model_size(
    num_layers: usize,
    hidden_dim: usize,
    intermediate_dim: usize,
    vocab_size: usize,
    num_experts: usize,
    dtype: &str,
) -> (r: Result<u64, String>)
    requires
        dtype_name_size(dtype@) matches Some(n) ==> model_fits(
            num_layers as int,
            hidden_dim as int,
            intermediate_dim as int,
            vocab_size as int,
            num_experts as int,
            n,
        ),
    ensures
        dtype_name_size(dtype@) matches Some(n) ==> r == Ok::<u64, String>(
            model_bytes(
                num_layers as int,
                hidden_dim as int,
                intermediate_dim as int,
                vocab_size as int,
                num_experts as int,
                n,
            ) as u64,
        ),
        dtype_name_size(dtype@) is None ==> (r matches Err(m) && m@ == unknown_dtype_message(dtype@)),
{
    let dtype_size = match dtype_size_named(dtype) {
        Ok(n) => n,
        Err(m) => {
            return Err(m);
        },
    };
    let embedding = vocab_size * hidden_dim * dtype_size;
    let per_layer = if num_experts > 0 {
        let attention = 4 * hidden_dim * hidden_dim * dtype_size;
        let expert_ffn = 3 * hidden_dim * intermediate_dim * dtype_size;
        let router = hidden_dim * num_experts * dtype_size;
        attention + (expert_ffn * num_experts) + router
    } else {
        let attention = 4 * hidden_dim * hidden_dim * dtype_size;
        let ffn = 3 * hidden_dim * intermediate_dim * dtype_size;
        attention + ffn
    };
    let total = embedding + num_layers * per_layer;
    Ok(total as u64)
}

} // verus!
