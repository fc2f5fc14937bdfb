//! Token block hashing: a token sequence is cut into blocks of a fixed size and
//! each complete block gets a 64-bit hash chained on the hash of the block before.
use vstd::prelude::*;

verus! {

/// Seed of the hash chain that workers and the router agree on.
pub const HASH_SEED: u64 = 1337;

/// Multiplier of the per-token mixing step (the 64-bit FNV prime).
pub const MIX_PRIME: u64 = 0x100000001b3;

/// One mixing step: fold a token into a running hash.
pub open spec fn mix_token(h: u64, t: u32) -> u64 {
    (h ^ (t as u64)).wrapping_mul(MIX_PRIME)
}

/// The running hash after folding `toks`, in order, into `h`.
pub open spec fn fold_tokens(h: u64, toks: Seq<u32>) -> u64
    decreases toks.len(),
{
    if toks.len() == 0 {
        h
    } else {
        mix_token(fold_tokens(h, toks.drop_last()), toks.last())
    }
}

/// The tokens of block `k` (blocks of `b` tokens).
pub open spec fn block_tokens(tokens: Seq<u32>, b: nat, k: nat) -> Seq<u32> {
    tokens.subrange((k * b) as int, ((k + 1) * b) as int)
}

/// Hash of block `k`: the block's tokens folded into the hash of block `k - 1`,
/// or into the seed for the first block.
pub open spec fn chain_hash(tokens: Seq<u32>, b: nat, seed: u64, k: nat) -> u64
    decreases k,
{
    if k == 0 {
        fold_tokens(seed, block_tokens(tokens, b, 0))
    } else {
        fold_tokens(chain_hash(tokens, b, seed, (k - 1) as nat), block_tokens(tokens, b, k))
    }
}

/// The hashes of all complete blocks of `tokens`.
pub open spec fn block_hashes(tokens: Seq<u32>, b: nat, seed: u64) -> Seq<u64>
    recommends
        b > 0,
{
    Seq::new(tokens.len() / b, |k: int| chain_hash(tokens, b, seed, k as nat))
}

/// Folds the tokens `tokens[from..to]` into `h`.
fn fold_range(h: u64, tokens: &Vec<u32>, from: usize, to: usize) -> (r: u64)
    requires
        from <= to <= tokens.len(),
    ensures
        r == fold_tokens(h, tokens@.subrange(from as int, to as int)),
{
    let mut acc: u64 = h;
    let mut j: usize = from;
    while j < to
        invariant
            from <= j <= to <= tokens.len(),
            acc == fold_tokens(h, tokens@.subrange(from as int, j as int)),
        decreases to - j,
    {
        let ghost before = tokens@.subrange(from as int, j as int);
        acc = (acc ^ (tokens[j] as u64)).wrapping_mul(MIX_PRIME);
        j = j + 1;
        proof {
            let now = tokens@.subrange(from as int, j as int);
            assert(now.drop_last() =~= before);
        }
    }
    acc
}

/// Splits `tokens` into blocks of `block_size` tokens and hashes every complete
/// block along the chain started at `seed`. Also returns the length of the
/// trailing partial block, which is not hashed.
pub fn split_tokens(tokens: &Vec<u32>, block_size: usize, seed: u64) -> (r: (Vec<u64>, usize))
    requires
        block_size > 0,
    ensures
        r.0@ == block_hashes(tokens@, block_size as nat, seed),
        r.1 == tokens.len() % block_size,
{
    let n_blocks: usize = tokens.len() / block_size;
    let mut hashes: Vec<u64> = Vec::new();
    let mut prev: u64 = seed;
    let mut k: usize = 0;
    while k < n_blocks
        invariant
            block_size > 0,
            n_blocks == tokens.len() / block_size,
            k <= n_blocks,
            hashes@.len() == k,
            forall|i: int|
                0 <= i < k ==> #[trigger] hashes@[i] == chain_hash(
                    tokens@,
                    block_size as nat,
                    seed,
                    i as nat,
                ),
            k > 0 ==> prev == chain_hash(tokens@, block_size as nat, seed, (k - 1) as nat),
            k == 0 ==> prev == seed,
        decreases n_blocks - k,
    {
        proof {
            let (kk, b, n) = (k as int, block_size as int, tokens.len() as int);
            assert(kk * b + b <= n) by (nonlinear_arith)
                requires
                    kk < n / b,
                    b > 0,
            ;
            assert((kk + 1) * b == kk * b + b) by (nonlinear_arith);
        }
        let start: usize = k * block_size;
        let h = fold_range(prev, tokens, start, start + block_size);
        hashes.push(h);
        prev = h;
        k = k + 1;
    }
    proof {
        assert(hashes@ =~= block_hashes(tokens@, block_size as nat, seed));
    }
    (hashes, tokens.len() % block_size)
}

/// Two token sequences that agree on their first `k * b` tokens have the same
/// first `k` block hashes: a block hash depends only on its block and the
/// blocks before it.
pub proof fn lemma_hash_prefix(x: Seq<u32>, y: Seq<u32>, b: nat, seed: u64, k: nat)
    requires
        b > 0,
        x.len() >= k * b,
        y.len() >= k * b,
        x.subrange(0, (k * b) as int) == y.subrange(0, (k * b) as int),
    ensures
        forall|i: int|
            0 <= i < k ==> #[trigger] block_hashes(x, b, seed)[i] == block_hashes(y, b, seed)[i],
{
    assert(x.len() / b >= k) by {
        vstd::arithmetic::div_mod::lemma_div_is_ordered((k * b) as int, x.len() as int, b as int);
        vstd::arithmetic::div_mod::lemma_div_by_multiple(k as int, b as int);
    }
    assert(y.len() / b >= k) by {
        vstd::arithmetic::div_mod::lemma_div_is_ordered((k * b) as int, y.len() as int, b as int);
        vstd::arithmetic::div_mod::lemma_div_by_multiple(k as int, b as int);
    }
    assert forall|i: int| 0 <= i < k implies #[trigger] block_hashes(x, b, seed)[i] == block_hashes(
        y,
        b,
        seed,
    )[i] by {
        lemma_chain_prefix(x, y, b, seed, k, i as nat);
    }
}

proof fn lemma_chain_prefix(x: Seq<u32>, y: Seq<u32>, b: nat, seed: u64, k: nat, i: nat)
    requires
        b > 0,
        i < k,
        x.len() >= k * b,
        y.len() >= k * b,
        x.subrange(0, (k * b) as int) == y.subrange(0, (k * b) as int),
    ensures
        chain_hash(x, b, seed, i) == chain_hash(y, b, seed, i),
    decreases i,
{
    assert((i + 1) * b <= k * b) by (nonlinear_arith)
        requires
            i < k,
    ;
    assert(i * b <= (i + 1) * b) by (nonlinear_arith);
    assert((i + 1) * b == i * b + b) by (nonlinear_arith);
    let p = (k * b) as int;
    assert(block_tokens(x, b, i) =~= block_tokens(y, b, i)) by {
        assert forall|j: int| 0 <= j < b implies #[trigger] block_tokens(x, b, i)[j] == block_tokens(
            y,
            b,
            i,
        )[j] by {
            assert((i * b) as int + j < p);
            assert(x.subrange(0, p)[(i * b) as int + j] == y.subrange(0, p)[(i * b) as int + j]);
        }
    }
    if i > 0 {
        lemma_chain_prefix(x, y, b, seed, k, (i - 1) as nat);
    }
}

} // verus!
