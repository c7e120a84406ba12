use vstd::prelude::*;

verus! {

/// Number of output samples that nearest-neighbour conversion from `rate`
/// to 16 kHz yields for `len` input samples: `len * 16000 / rate`, rounded
/// down.
pub open spec fn resampled_len(len: nat, rate: nat) -> nat
    recommends
        rate >= 1,
{
    ((len as int * 16000) / (rate as int)) as nat
}

/// Index of the input sample that output sample `k` repeats.
pub open spec fn source_index(k: int, rate: nat) -> int {
    k * rate / 16000
}

/// Nearest-neighbour conversion of `s`, sampled at `rate`, to 16 kHz: output
/// sample `k` is input sample `floor(k * rate / 16000)`.
pub open spec fn resample_spec(s: Seq<i16>, rate: nat) -> Seq<i16>
    recommends
        rate >= 1,
{
    Seq::new(resampled_len(s.len(), rate), |k: int| s[source_index(k, rate)])
}

/// Converts mono samples taken at `rate` to the canonical 16 kHz rate. At
/// 16 kHz the samples pass through unchanged; otherwise an accumulator
/// advances by `rate / 16000` per output sample, held exactly as a whole part
/// and a remainder, and the sample at its whole part is taken, for
/// `len * 16000 / rate` output samples.
pub fn resample_to_canonical(samples: &Vec<i16>, rate: u32) -> (out: Vec<i16>)
    requires
        rate >= 1,
    ensures
        out@ == resample_spec(samples@, rate as nat),
        rate == 16000 ==> out@ == samples@,
{
    proof {
        law_canonical_rate_passes_through(samples@);
    }
    if rate == 16000 {
        return samples.clone();
    }
    let len: usize = samples.len();
    let count: u128 = (len as u128) * 16000 / (rate as u128);
    let step: usize = (rate / 16000) as usize;
    let step_rem: u32 = rate % 16000;
    let mut out: Vec<i16> = Vec::new();
    let mut idx: usize = 0;
    let mut frac: u32 = 0;
    let ghost total: int = len as int * 16000;
    assert(0int * rate as int == 0);
    assert(count as int * rate as int <= total) by (nonlinear_arith)
        requires
            count as int == total / (rate as int),
            rate >= 1,
            total >= 0,
    ;
    while (out.len() as u128) < count
        invariant
            len == samples@.len(),
            rate >= 1,
            step == rate / 16000,
            step_rem == rate % 16000,
            total == len as int * 16000,
            count as int == total / (rate as int),
            count as int * rate as int <= total,
            out@.len() <= count,
            frac < 16000,
            idx as int * 16000 + frac as int == out@.len() as int * rate as int,
            forall|k: int|
                0 <= k < out@.len() ==> #[trigger] out@[k] == samples@[source_index(
                    k,
                    rate as nat,
                )],
        decreases count - out@.len(),
    {
        let ghost k: int = out@.len() as int;
        proof {
            assert((k + 1) * rate <= total) by (nonlinear_arith)
                requires
                    k + 1 <= count,
                    count * rate <= total,
                    rate >= 1,
            ;
            assert((k + 1) * rate == k * rate + rate) by (nonlinear_arith);
            assert(idx as int == k * rate / 16000) by (nonlinear_arith)
                requires
                    idx as int * 16000 + frac as int == k * rate,
                    0 <= frac < 16000,
            ;
            assert(rate as int == step as int * 16000 + step_rem as int);
            assert(idx as int + step as int <= len) by (nonlinear_arith)
                requires
                    idx as int * 16000 + frac as int + step as int * 16000 + step_rem as int
                        <= total,
                    total == len as int * 16000,
                    frac >= 0,
                    step_rem >= 0,
            ;
        }
        out.push(samples[idx]);
        idx = idx + step;
        frac = frac + step_rem;
        if frac >= 16000 {
            frac = frac - 16000;
            proof {
                assert(idx as int + 1 <= len) by (nonlinear_arith)
                    requires
                        idx as int * 16000 + 16000 + frac as int <= total,
                        total == len as int * 16000,
                        frac >= 0,
                ;
            }
            idx = idx + 1;
        }
    }
    proof {
        assert(out@ =~= resample_spec(samples@, rate as nat));
    }
    out
}

/// At the canonical rate the conversion is the identity.
pub proof fn law_canonical_rate_passes_through(s: Seq<i16>)
    ensures
        resample_spec(s, 16000) == s,
{
    assert(resampled_len(s.len(), 16000) == s.len()) by (nonlinear_arith);
    assert forall|k: int| 0 <= k < s.len() implies source_index(k, 16000) == k by {
        assert(k * 16000 / 16000 == k) by (nonlinear_arith);
    }
    assert(resample_spec(s, 16000) =~= s);
}

} // verus!

verus! {

/// Conversion to 16 kHz yields `len * 16000 / rate` samples, rounded down,
/// and exactly `len` samples at 16 kHz itself.
pub proof fn law_resampled_count(s: Seq<i16>, rate: nat)
    requires
        rate >= 1,
    ensures
        resample_spec(s, rate).len() == (s.len() as int * 16000) / (rate as int),
        rate == 16000 ==> resample_spec(s, rate).len() == s.len(),
{
    if rate == 16000 {
        law_canonical_rate_passes_through(s);
    }
}

} // verus!
