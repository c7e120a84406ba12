use vstd::prelude::*;

verus! {

/// Sum of the `n` samples of `s` that start at index `start`.
pub open spec fn group_sum(s: Seq<i16>, start: int, n: nat) -> int
    decreases n,
{
    if n == 0 {
        0
    } else {
        group_sum(s, start, (n - 1) as nat) + s[start + n - 1] as int
    }
}

/// Integer division that rounds toward zero, as Rust's `/` on signed integers does.
pub open spec fn div_toward_zero(a: int, d: int) -> int {
    if a >= 0 {
        a / d
    } else {
        -((-a) / d)
    }
}

/// Mono signal of interleaved 16-bit frames of `n` channels: one sample per
/// complete frame, the channel mean rounded toward zero; a trailing partial
/// frame is dropped.
pub open spec fn downmix_int16_spec(s: Seq<i16>, n: nat) -> Seq<i16>
    recommends
        n >= 1,
{
    Seq::new(s.len() / n, |k: int| div_toward_zero(group_sum(s, k * n, n), n as int) as i16)
}

proof fn lemma_mean_fits(sum: int, n: int)
    requires
        n >= 1,
        -32768 * n <= sum <= 32767 * n,
    ensures
        -32768 <= div_toward_zero(sum, n) <= 32767,
{
    if sum >= 0 {
        assert(sum / n <= 32767) by (nonlinear_arith)
            requires
                n >= 1,
                0 <= sum <= 32767 * n,
        ;
        assert(sum / n >= 0) by (nonlinear_arith)
            requires
                n >= 1,
                0 <= sum,
        ;
    } else {
        assert((-sum) / n <= 32768) by (nonlinear_arith)
            requires
                n >= 1,
                0 <= -sum <= 32768 * n,
        ;
        assert((-sum) / n >= 0) by (nonlinear_arith)
            requires
                n >= 1,
                0 <= -sum,
        ;
    }
}

/// Downmixes interleaved 16-bit frames of `channels` channels to mono: each
/// frame's samples are summed in a wider accumulator and divided by the
/// channel count, rounding toward zero. A trailing incomplete frame is skipped.
pub fn downmix_int16(samples: &Vec<i16>, channels: u16) -> (mono: Vec<i16>)
    requires
        channels >= 1,
    ensures
        mono@ == downmix_int16_spec(samples@, channels as nat),
        mono@.len() * channels <= samples@.len(),
{
    let n: usize = channels as usize;
    let len: usize = samples.len();
    let mut mono: Vec<i16> = Vec::with_capacity(len / n);
    let mut i: usize = 0;
    while n <= len - i
        invariant
            n == channels as usize,
            n >= 1,
            len == samples@.len(),
            i <= len,
            i == mono@.len() * n,
            forall|k: int|
                0 <= k < mono@.len() ==> mono@[k] == div_toward_zero(
                    #[trigger] group_sum(samples@, k * n, n as nat),
                    n as int,
                ) as i16,
        decreases len - i,
    {
        let mut sum: i64 = 0;
        let mut c: usize = 0;
        while c < n
            invariant
                n >= 1,
                len == samples@.len(),
                i + n <= len,
                c <= n,
                sum == group_sum(samples@, i as int, c as nat),
                -32768 * c <= sum <= 32767 * c,
                n <= 65535,
            decreases n - c,
        {
            sum = sum + samples[i + c] as i64;
            c = c + 1;
        }
        proof {
            lemma_mean_fits(sum as int, n as int);
        }
        let mean: i64 = if sum >= 0 {
            sum / (n as i64)
        } else {
            -((-sum) / (n as i64))
        };
        let k: Ghost<int> = Ghost(mono@.len() as int);
        mono.push(mean as i16);
        assert(k@ * n == i);
        i = i + n;
        assert(i == mono@.len() * n) by (nonlinear_arith)
            requires
                i == k@ * n + n,
                mono@.len() == k@ + 1,
        ;
    }
    proof {
        let m = mono@.len();
        assert(m == (len as int) / (n as int)) by (nonlinear_arith)
            requires
                len - (m * n) < n,
                m * n <= len,
                n >= 1,
        ;
        assert(mono@ =~= downmix_int16_spec(samples@, channels as nat));
    }
    mono
}

} // verus!

verus! {

proof fn lemma_group_sum_uniform(s: Seq<i16>, start: int, n: nat, v: i16)
    requires
        0 <= start,
        start + n <= s.len(),
        forall|c: int| 0 <= c < n ==> #[trigger] s[start + c] == v,
    ensures
        group_sum(s, start, n) == n * (v as int),
    decreases n,
{
    if n > 0 {
        let m = (n - 1) as nat;
        lemma_group_sum_uniform(s, start, m, v);
        assert(s[start + m] == v);
        assert(group_sum(s, start, n) == group_sum(s, start, m) + s[start + m] as int);
        assert(n * (v as int) == m * (v as int) + v as int) by (nonlinear_arith)
            requires
                m == n - 1,
        ;
    } else {
        assert(n * (v as int) == 0) by (nonlinear_arith)
            requires
                n == 0,
        ;
    }
}

/// A frame whose channels all carry the same value downmixes to that value:
/// for every complete frame of identical samples, the mono sample equals the
/// frame's first sample.
pub proof fn law_identical_channels_keep_value(s: Seq<i16>, n: nat)
    requires
        n >= 1,
        forall|k: int, c: int|
            0 <= k < (s.len() as int) / (n as int) && 0 <= c < n ==> #[trigger] s[k * n + c] == s[k * n],
    ensures
        forall|k: int|
            0 <= k < (s.len() as int) / (n as int) ==> #[trigger] downmix_int16_spec(s, n)[k] == s[k * n],
{
    assert forall|k: int| 0 <= k < (s.len() as int) / (n as int) implies #[trigger] downmix_int16_spec(
        s,
        n,
    )[k] == s[k * n] by {
        let v = s[k * n];
        assert(k * n + n <= s.len()) by (nonlinear_arith)
            requires
                0 <= k < (s.len() as int) / (n as int),
                n >= 1,
        ;
        assert(k * n >= 0) by (nonlinear_arith)
            requires
                k >= 0,
                n >= 1,
        ;
        assert forall|c: int| 0 <= c < n implies #[trigger] s[k * n + c] == v by {
            assert(s[k * n + c] == s[k * n]);
        }
        lemma_group_sum_uniform(s, k * n, n, v);
        let p = n * (v as int);
        if v >= 0 {
            assert(p >= 0 && p / (n as int) == v) by (nonlinear_arith)
                requires
                    p == n * (v as int),
                    n >= 1,
                    v >= 0,
            ;
        } else {
            assert(p < 0 && (-p) / (n as int) == -v) by (nonlinear_arith)
                requires
                    p == n * (v as int),
                    n >= 1,
                    v < 0,
            ;
        }
    }
}

} // verus!
