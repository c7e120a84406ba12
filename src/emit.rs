use vstd::prelude::*;
use base64::Engine;

verus! {

/// Number of canonical samples in one live frame (20 ms at 16 kHz).
pub const FRAME_SAMPLES: usize = 320;

/// Byte `j` (0 = low, 1 = high) of the little-endian encoding of `v`.
pub open spec fn sample_byte(v: i16, j: int) -> u8 {
    if j == 0 {
        ((v as u16) % 256) as u8
    } else {
        ((v as u16) / 256) as u8
    }
}

/// Little-endian 16-bit encoding of each sample, concatenated.
pub open spec fn le_bytes_spec(s: Seq<i16>) -> Seq<u8> {
    Seq::new(2 * s.len(), |j: int| sample_byte(s[j / 2], j % 2))
}

/// Padded standard-alphabet base64 text of a byte sequence.
pub uninterp spec fn base64_standard(b: Seq<u8>) -> Seq<char>;

/// Relies on base64's `Engine::encode` with the `STANDARD` engine: padded
/// standard-alphabet text, four characters for each started group of three
/// bytes. It panics only when that length overflows `usize`.
#[verifier::external_body]
fn base64_encode(bytes: &Vec<u8>) -> (r: String)
    requires
        bytes@.len() / 3 * 4 + 4 <= usize::MAX,
    ensures
        r@ == base64_standard(bytes@),
        r@.len() == 4 * ((bytes@.len() + 2) / 3),
{
    base64::engine::general_purpose::STANDARD.encode(bytes)
}

/// Encodes samples as little-endian 16-bit values, two bytes per sample.
pub fn le_bytes(samples: &Vec<i16>) -> (bytes: Vec<u8>)
    requires
        samples@.len() <= usize::MAX / 2,
    ensures
        bytes@ == le_bytes_spec(samples@),
{
    let mut bytes: Vec<u8> = Vec::with_capacity(2 * samples.len());
    let mut i: usize = 0;
    while i < samples.len()
        invariant
            i <= samples@.len(),
            samples@.len() <= usize::MAX / 2,
            bytes@.len() == 2 * i,
            forall|j: int| 0 <= j < bytes@.len() ==> #[trigger] bytes@[j] == sample_byte(samples@[j / 2], j % 2),
        decreases samples@.len() - i,
    {
        let u: u16 = samples[i] as u16;
        bytes.push((u % 256) as u8);
        bytes.push((u / 256) as u8);
        proof {
            assert((2 * i as int) / 2 == i && (2 * i as int) % 2 == 0);
            assert((2 * i as int + 1) / 2 == i && (2 * i as int + 1) % 2 == 1);
        }
        i = i + 1;
    }
    assert(bytes@ =~= le_bytes_spec(samples@));
    bytes
}

/// Payload of one live frame: its samples as little-endian 16-bit bytes,
/// base64-encoded.
pub open spec fn frame_payload(frame: Seq<i16>) -> Seq<char> {
    base64_standard(le_bytes_spec(frame))
}

/// Encodes a frame of canonical samples as the live consumer's payload.
pub fn encode_frame(frame: &Vec<i16>) -> (payload: String)
    requires
        frame@.len() <= usize::MAX / 4,
    ensures
        payload@ == frame_payload(frame@),
        payload@.len() == 4 * ((2 * frame@.len() + 2) / 3),
{
    let bytes = le_bytes(frame);
    base64_encode(&bytes)
}

/// Number of whole live frames in `total`.
pub open spec fn whole_frames(total: Seq<i16>) -> nat {
    total.len() / (FRAME_SAMPLES as nat)
}

/// Live frame `i` of `total`.
pub open spec fn frame_at(total: Seq<i16>, i: int) -> Seq<i16> {
    total.subrange(i * FRAME_SAMPLES as int, i * FRAME_SAMPLES as int + FRAME_SAMPLES as int)
}

/// What is left of `total` once every whole frame has been removed.
pub open spec fn residue(total: Seq<i16>) -> Seq<i16> {
    total.subrange(whole_frames(total) * FRAME_SAMPLES as int, total.len() as int)
}

/// Window content after appending `chunk` to `pending` and draining whole frames.
pub open spec fn window_after(pending: Seq<i16>, chunk: Seq<i16>) -> Seq<i16> {
    residue(pending + chunk)
}

/// Window content after appending each chunk in turn, draining after each.
pub open spec fn window_after_all(pending: Seq<i16>, chunks: Seq<Seq<i16>>) -> Seq<i16>
    decreases chunks.len(),
{
    if chunks.len() == 0 {
        pending
    } else {
        window_after(window_after_all(pending, chunks.drop_last()), chunks.last())
    }
}

proof fn lemma_residue_short(total: Seq<i16>)
    ensures
        residue(total).len() < FRAME_SAMPLES,
        whole_frames(total) * FRAME_SAMPLES <= total.len(),
{
    let n = total.len() as int;
    let w = n / 320;
    assert(w * 320 <= n && n - w * 320 < 320) by (nonlinear_arith)
        requires
            n >= 0,
            w == n / 320,
    ;
}

/// Canonical samples awaiting a whole live frame.
pub struct EmitWindow {
    pending: Vec<i16>,
}

impl View for EmitWindow {
    type V = Seq<i16>;

    closed spec fn view(&self) -> Seq<i16> {
        self.pending@
    }
}

impl EmitWindow {
    /// The window never holds a whole frame between drains.
    pub open spec fn wf(&self) -> bool {
        self@.len() < FRAME_SAMPLES
    }

    pub fn new() -> (w: EmitWindow)
        ensures
            w@ == Seq::<i16>::empty(),
            w.wf(),
    {
        EmitWindow { pending: Vec::new() }
    }

    /// Number of samples waiting.
    pub fn len(&self) -> (n: usize)
        ensures
            n == self@.len(),
    {
        self.pending.len()
    }

    /// Appends `samples` and removes every whole frame, oldest first. The
    /// frames come back in order; what stays is the residue.
    pub fn push_samples(&mut self, samples: &Vec<i16>) -> (frames: Vec<Vec<i16>>)
        requires
            old(self).wf(),
            samples@.len() <= usize::MAX - FRAME_SAMPLES,
        ensures
            final(self).wf(),
            final(self)@ == window_after(old(self)@, samples@),
            frames@.len() == whole_frames(old(self)@ + samples@),
            forall|i: int|
                0 <= i < frames@.len() ==> (#[trigger] frames@[i])@ == frame_at(
                    old(self)@ + samples@,
                    i,
                ),
    {
        let ghost total: Seq<i16> = self.pending@ + samples@;
        let mut all: Vec<i16> = self.pending.clone();
        all.extend_from_slice(samples.as_slice());
        assert(all@ =~= total);
        proof {
            lemma_residue_short(total);
        }
        let mut frames: Vec<Vec<i16>> = Vec::new();
        let mut start: usize = 0;
        while all.len() - start >= FRAME_SAMPLES
            invariant
                all@ == total,
                total.len() <= usize::MAX,
                start <= all@.len(),
                start == frames@.len() * FRAME_SAMPLES,
                frames@.len() <= whole_frames(total),
                forall|i: int|
                    0 <= i < frames@.len() ==> (#[trigger] frames@[i])@ == frame_at(total, i),
            decreases all@.len() - start,
        {
            let mut frame: Vec<i16> = Vec::with_capacity(FRAME_SAMPLES);
            let mut j: usize = 0;
            while j < FRAME_SAMPLES
                invariant
                    all@ == total,
                    total.len() <= usize::MAX,
                    start + FRAME_SAMPLES <= all@.len(),
                    j <= FRAME_SAMPLES,
                    frame@ =~= total.subrange(start as int, start + j),
                decreases FRAME_SAMPLES - j,
            {
                frame.push(all[start + j]);
                j = j + 1;
            }
            proof {
                let k = frames@.len() as int;
                assert(k + 1 <= whole_frames(total)) by (nonlinear_arith)
                    requires
                        start == k * 320,
                        start + 320 <= total.len(),
                        whole_frames(total) == total.len() / 320,
                ;
                assert(frame@ == frame_at(total, k));
            }
            frames.push(frame);
            start = start + FRAME_SAMPLES;
        }
        proof {
            let k = frames@.len() as int;
            assert(k == whole_frames(total)) by (nonlinear_arith)
                requires
                    start == k * 320,
                    total.len() - start < 320,
                    start <= total.len(),
                    whole_frames(total) == total.len() / 320,
            ;
        }
        let mut rest: Vec<i16> = Vec::with_capacity(all.len() - start);
        let mut i: usize = start;
        while i < all.len()
            invariant
                all@ == total,
                start <= i <= all@.len(),
                rest@ =~= total.subrange(start as int, i as int),
            decreases all@.len() - i,
        {
            rest.push(all[i]);
            i = i + 1;
        }
        self.pending = rest;
        frames
    }

    /// Appends canonical samples and returns the payload of each live frame
    /// completed, in order.
    pub fn push_and_encode(&mut self, samples: &Vec<i16>) -> (payloads: Vec<String>)
        requires
            old(self).wf(),
            samples@.len() <= usize::MAX - FRAME_SAMPLES,
        ensures
            final(self).wf(),
            final(self)@ == window_after(old(self)@, samples@),
            payloads@.len() == whole_frames(old(self)@ + samples@),
            forall|i: int|
                0 <= i < payloads@.len() ==> (#[trigger] payloads@[i])@ == frame_payload(
                    frame_at(old(self)@ + samples@, i),
                ),
    {
        let frames = self.push_samples(samples);
        let mut payloads: Vec<String> = Vec::with_capacity(frames.len());
        let mut i: usize = 0;
        while i < frames.len()
            invariant
                i <= frames@.len(),
                payloads@.len() == i,
                forall|k: int| 0 <= k < frames@.len() ==> (#[trigger] frames@[k])@.len() == FRAME_SAMPLES,
                forall|k: int| 0 <= k < i ==> (#[trigger] payloads@[k])@ == frame_payload(frames@[k]@),
            decreases frames@.len() - i,
        {
            payloads.push(encode_frame(&frames[i]));
            i = i + 1;
        }
        payloads
    }
}

} // verus!

verus! {

/// Draining chunk by chunk composes: the window after chunks `a` and then
/// chunks `b` is the window after `a + b`, so a session swap between `a` and
/// `b` neither drops nor adds samples.
pub proof fn law_window_composes(pending: Seq<i16>, a: Seq<Seq<i16>>, b: Seq<Seq<i16>>)
    ensures
        window_after_all(window_after_all(pending, a), b) == window_after_all(pending, a + b),
    decreases b.len(),
{
    if b.len() == 0 {
        assert(a + b =~= a);
    } else {
        law_window_composes(pending, a, b.drop_last());
        assert((a + b).drop_last() =~= a + b.drop_last());
        assert((a + b).last() == b.last());
    }
}

} // verus!

verus! {

/// The chunks laid end to end.
pub open spec fn concat_all(chunks: Seq<Seq<i16>>) -> Seq<i16>
    decreases chunks.len(),
{
    if chunks.len() == 0 {
        Seq::empty()
    } else {
        concat_all(chunks.drop_last()) + chunks.last()
    }
}

/// Number of live frames emitted while pushing each chunk in turn onto a
/// window that starts as `pending`.
pub open spec fn frames_emitted_all(pending: Seq<i16>, chunks: Seq<Seq<i16>>) -> nat
    decreases chunks.len(),
{
    if chunks.len() == 0 {
        0
    } else {
        frames_emitted_all(pending, chunks.drop_last()) + whole_frames(
            window_after_all(pending, chunks.drop_last()) + chunks.last(),
        )
    }
}

proof fn lemma_residue_absorbs(x: Seq<i16>, y: Seq<i16>)
    ensures
        residue(residue(x) + y) == residue(x + y),
        whole_frames(x) + whole_frames(residue(x) + y) == whole_frames(x + y),
{
    let n = x.len() as int;
    let m = y.len() as int;
    let q = n / 320;
    let r = n - 320 * q;
    let z = residue(x) + y;
    lemma_residue_short(x);
    assert(residue(x).len() == r);
    let q2 = (r + m) / 320;
    assert((n + m) / 320 == q + q2) by (nonlinear_arith)
        requires
            q == n / 320,
            r == n - 320 * q,
            q2 == (r + m) / 320,
            n >= 0,
            m >= 0,
    ;
    assert(0 <= q2 * 320 <= r + m) by (nonlinear_arith)
        requires
            q2 == (r + m) / 320,
            r >= 0,
            m >= 0,
    ;
    assert forall|i: int| 0 <= i < r + m implies #[trigger] z[i] == (x + y)[320 * q + i] by {
        if i < r {
            assert(z[i] == residue(x)[i]);
        } else {
            assert(z[i] == y[i - r]);
        }
    }
    let lhs = residue(z);
    let rhs = residue(x + y);
    assert(lhs.len() == rhs.len());
    assert forall|j: int| 0 <= j < lhs.len() implies lhs[j] == rhs[j] by {
        assert(lhs[j] == z[q2 * 320 + j]);
        assert(rhs[j] == (x + y)[(q + q2) * 320 + j]);
        assert(320 * q + (q2 * 320 + j) == (q + q2) * 320 + j);
    }
    assert(lhs =~= rhs);
}

/// After any sequence of chunks pushed onto a window that starts short of a
/// frame, the window holds exactly the tail of the whole stream past its last
/// whole frame, so `total % 320` samples, and exactly `total / 320` frames
/// have been emitted, where `total` counts the starting window and every
/// chunk.
pub proof fn law_window_is_stream_remainder(pending: Seq<i16>, chunks: Seq<Seq<i16>>)
    requires
        pending.len() < FRAME_SAMPLES,
    ensures
        window_after_all(pending, chunks) == residue(pending + concat_all(chunks)),
        window_after_all(pending, chunks).len() == (pending.len() + concat_all(chunks).len())
            % 320,
        frames_emitted_all(pending, chunks) == (pending.len() + concat_all(chunks).len()) / 320,
    decreases chunks.len(),
{
    let t = pending + concat_all(chunks);
    if chunks.len() == 0 {
        assert(t =~= pending);
        let n = pending.len() as int;
        assert(n / 320 == 0 && n % 320 == n) by (nonlinear_arith)
            requires
                0 <= n < 320,
        ;
        assert(residue(pending) =~= pending);
    } else {
        let init = chunks.drop_last();
        law_window_is_stream_remainder(pending, init);
        let t0 = pending + concat_all(init);
        lemma_residue_absorbs(t0, chunks.last());
        assert(t =~= t0 + chunks.last());
    }
    let n = t.len() as int;
    assert(n - 320 * (n / 320) == n % 320) by (nonlinear_arith)
        requires
            n >= 0,
    ;
    lemma_residue_short(t);
}

} // verus!
