//! The verified half of the time-stretch stage.
//!
//! Stretching changes duration without changing pitch by feeding the buffer,
//! in fixed 1024-sample chunks, through a spectral resampler configured once
//! per call with `output_rate = input_rate / tempo_factor`. The resampler
//! itself works on floating-point frames and so lives outside this crate;
//! everything around it — the identity band, the output-rate arithmetic, the
//! chunking with zero padding, and the reassembly of output chunks — is here,
//! stated exactly.

use vstd::prelude::*;
use crate::audio::{identity_factor, Factor};

verus! {

/// Number of input samples fed to the resampler per chunk.
pub const STRETCH_CHUNK: usize = 1024;

/// Number of chunks a buffer of `n` samples is cut into (the last one padded).
pub open spec fn chunk_count(n: nat) -> nat {
    (n + 1023) / 1024
}

/// The sample expected at position `j` of chunk `i`: the source sample where
/// one exists, and padding zero past the end of the buffer.
pub open spec fn chunk_sample(s: Seq<i16>, i: nat, j: nat) -> i16 {
    if i * 1024 + j < s.len() {
        s[(i * 1024 + j) as int]
    } else {
        0i16
    }
}

/// Tempo factors in the identity band pass the buffer through bit-identically;
/// any other factor is handed on to the resampler (`None` here).
pub fn time_stretch_gate(samples: &Vec<i16>, tempo: &Factor) -> (r: Option<Vec<i16>>)
    ensures
        identity_factor(tempo.milli as nat) ==> (r matches Some(v) && v@ == samples@),
        !identity_factor(tempo.milli as nat) ==> r is None,
{
    if tempo.is_identity() {
        Some(crate::audio::copy_samples(samples))
    } else {
        None
    }
}

/// The resampler's output rate: `input_rate / tempo_factor`, in integer
/// arithmetic over thousandths.
pub fn output_sample_rate(rate: u32, tempo: &Factor) -> (r: u32)
    requires
        tempo.wf(),
        (rate as nat * 1000) / (tempo.milli as nat) <= u32::MAX,
    ensures
        r as nat == (rate as nat * 1000) / (tempo.milli as nat),
{
    ((rate as u64 * 1000) / (tempo.milli as u64)) as u32
}

/// Cut a buffer into consecutive 1024-sample chunks, zero-padding the last.
pub fn stretch_chunks(samples: &Vec<i16>) -> (r: Vec<Vec<i16>>)
    requires
        samples@.len() + 1024 < usize::MAX,
    ensures
        r@.len() == chunk_count(samples@.len()),
        forall|i: int| 0 <= i < r@.len() ==> (#[trigger] r@[i])@.len() == 1024,
        forall|i: int, j: int|
            0 <= i < r@.len() && 0 <= j < 1024 ==> #[trigger] r@[i]@[j] == chunk_sample(
                samples@,
                i as nat,
                j as nat,
            ),
{
    let n = samples.len();
    let mut r: Vec<Vec<i16>> = Vec::new();
    let mut pos: usize = 0;
    while pos < n
        invariant
            pos <= n + 1023,
            n + 1024 < usize::MAX,
            n == samples@.len(),
            pos == r@.len() * 1024,
            r@.len() == pos / 1024,
            forall|i: int| 0 <= i < r@.len() ==> (#[trigger] r@[i])@.len() == 1024,
            forall|i: int, j: int|
                0 <= i < r@.len() && 0 <= j < 1024 ==> #[trigger] r@[i]@[j] == chunk_sample(
                    samples@,
                    i as nat,
                    j as nat,
                ),
        decreases n + 1024 - pos,
    {
        let mut chunk: Vec<i16> = Vec::new();
        let mut j: usize = 0;
        while j < 1024
            invariant
                j <= 1024,
                pos + 1024 <= usize::MAX,
                n == samples@.len(),
                chunk@.len() == j,
                forall|k: int|
                    0 <= k < j ==> chunk@[k] == chunk_sample(samples@, (pos / 1024) as nat, k as nat),
                pos == (pos / 1024) * 1024,
            decreases 1024 - j,
        {
            let v: i16 = if pos + j < n {
                samples[pos + j]
            } else {
                0i16
            };
            chunk.push(v);
            j += 1;
        }
        let ghost old_r = r@;
        r.push(chunk);
        proof {
            assert(r@.drop_last() =~= old_r);
        }
        pos += 1024;
        proof {
            assert(pos == r@.len() * 1024);
            assert(r@.len() == pos / 1024) by (nonlinear_arith)
                requires pos == r@.len() * 1024,
            ;
        }
    }
    proof {
        if n == 0 {
            assert(chunk_count(0) == 0);
        } else {
            lemma_chunk_count_exact(n as nat, r@.len());
        }
    }
    r
}

/// A buffer cut at 1024 with padding fills exactly `ceil(n / 1024)` chunks.
proof fn lemma_chunk_count_exact(n: nat, c: nat)
    requires
        c * 1024 >= n,
        n > (c - 1) * 1024 || c == 0,
        n > 0,
    ensures
        c == chunk_count(n),
{
    assert(c == (n + 1023) / 1024) by (nonlinear_arith)
        requires c * 1024 >= n, n > (c - 1) * 1024 || c == 0, n > 0,
    ;
}

/// Concatenate the resampler's output chunks in order.
pub fn concat_chunks(outputs: &Vec<Vec<i16>>) -> (r: Vec<i16>)
    ensures
        r@ == outputs@.map_values(|v: Vec<i16>| v@).flatten(),
{
    let mut r: Vec<i16> = Vec::new();
    let mut i: usize = 0;
    proof {
        assert(outputs@.subrange(0, 0).map_values(|v: Vec<i16>| v@).flatten() =~= Seq::<
            i16,
        >::empty());
    }
    while i < outputs.len()
        invariant
            i <= outputs@.len(),
            r@ == outputs@.subrange(0, i as int).map_values(|v: Vec<i16>| v@).flatten(),
        decreases outputs@.len() - i,
    {
        let chunk = &outputs[i];
        let mut j: usize = 0;
        let ghost mid = r@;
        while j < chunk.len()
            invariant
                j <= chunk@.len(),
                r@ == mid + chunk@.subrange(0, j as int),
            decreases chunk@.len() - j,
        {
            r.push(chunk[j]);
            proof {
                assert(r@ =~= mid + chunk@.subrange(0, j + 1));
            }
            j += 1;
        }
        proof {
            let f = |v: Vec<i16>| v@;
            assert(chunk@.subrange(0, chunk@.len() as int) =~= chunk@);
            assert(outputs@.subrange(0, i as int).map_values(f).push(outputs@[i as int]@)
                =~= outputs@.subrange(0, i + 1).map_values(f));
            outputs@.subrange(0, i as int).map_values(f).lemma_flatten_push(outputs@[i as int]@);
        }
        i += 1;
    }
    proof {
        assert(outputs@.subrange(0, outputs@.len() as int) =~= outputs@);
    }
    r
}

/// A resampler that emits `k` output frames for each 1024-sample input chunk
/// turns an `n`-sample buffer into exactly `chunk_count(n) * k` frames.
pub proof fn lemma_stretch_total_len(chunks: Seq<Seq<i16>>, k: nat)
    requires
        forall|i: int| 0 <= i < chunks.len() ==> (#[trigger] chunks[i]).len() == k,
    ensures
        chunks.flatten().len() == chunks.len() * k,
    decreases chunks.len(),
{
    if chunks.len() == 0 {
    } else {
        lemma_stretch_total_len(chunks.drop_last(), k);
        chunks.drop_last().lemma_flatten_push(chunks.last());
        assert(chunks.drop_last().push(chunks.last()) =~= chunks);
        assert((chunks.len() - 1) * k + k == chunks.len() * k) by (nonlinear_arith);
    }
}

/// Doubling the tempo factor halves the length to within half a chunk: with
/// 512 output frames per chunk, twice the output length lands in
/// `[n, n + 1023]`.
pub proof fn lemma_double_tempo_length(n: nat)
    ensures
        2 * (chunk_count(n) * 512) >= n,
        2 * (chunk_count(n) * 512) <= n + 1023,
{
    lemma_chunk_total_range(n);
    assert(2 * (chunk_count(n) * 512) == chunk_count(n) * 1024) by (nonlinear_arith);
}

/// Halving the tempo factor doubles the length to within two chunks: with
/// 2048 output frames per chunk the output length lands in `[2n, 2n + 2046]`.
pub proof fn lemma_half_tempo_length(n: nat)
    requires
        n > 0,
    ensures
        chunk_count(n) * 2048 >= 2 * n,
        chunk_count(n) * 2048 <= 2 * n + 2046,
{
    lemma_chunk_total_range(n);
    assert(chunk_count(n) * 2048 == 2 * (chunk_count(n) * 1024)) by (nonlinear_arith);
}

/// The padded total `chunk_count(n) * 1024` exceeds `n` by less than a chunk.
proof fn lemma_chunk_total_range(n: nat)
    ensures
        chunk_count(n) * 1024 >= n,
        chunk_count(n) * 1024 <= n + 1023,
{
    assert(((n + 1023) / 1024) * 1024 >= n && ((n + 1023) / 1024) * 1024 <= n + 1023)
        by (nonlinear_arith);
}

} // verus!
