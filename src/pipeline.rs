use vstd::prelude::*;
use crate::downmix::{downmix_int16, downmix_int16_spec};
use crate::emit::{EmitWindow, frame_at, frame_payload, whole_frames, window_after};
use crate::format::SessionFormat;
use crate::resample::{resample_spec, resample_to_canonical};

verus! {

/// Milliseconds slept when the endpoint has no packet ready.
pub const IDLE_SLEEP_MS: u64 = 5;

/// Milliseconds between two checks of the default endpoint's identity.
pub const DEVICE_CHECK_INTERVAL_MS: u64 = 1000;

/// What the acquisition loop does next.
#[derive(Clone, Copy, Debug, PartialEq, Eq, Structural)]
pub enum Step {
    /// Stop the stream, finalize the file, and leave the loop.
    Shutdown,
    /// Compare the default endpoint's identity with the session's.
    CheckDevice,
    /// Sleep `IDLE_SLEEP_MS`, then poll again.
    Idle,
    /// Acquire the ready packet, process it, and release it.
    Acquire,
}

/// The order of decisions in one iteration: a stop request wins over
/// everything, then a due device check, then the packet poll.
pub open spec fn step_spec(stop_requested: bool, check_due: bool, packet_frames: u32) -> Step {
    if stop_requested {
        Step::Shutdown
    } else if check_due {
        Step::CheckDevice
    } else if packet_frames == 0 {
        Step::Idle
    } else {
        Step::Acquire
    }
}

/// Decides the loop's next step from what was observed.
pub fn next_step(stop_requested: bool, check_due: bool, packet_frames: u32) -> (s: Step)
    ensures
        s == step_spec(stop_requested, check_due, packet_frames),
{
    if stop_requested {
        Step::Shutdown
    } else if check_due {
        Step::CheckDevice
    } else if packet_frames == 0 {
        Step::Idle
    } else {
        Step::Acquire
    }
}

/// Canonical output of one packet: what goes to the file and what goes to
/// the live consumer.
pub struct Processed {
    /// Canonical samples to append to the WAV file, in order.
    pub wav_samples: Vec<i16>,
    /// Base64 payloads of the live frames completed by this packet, in order.
    pub payloads: Vec<String>,
}

/// State of the acquisition loop that outlives a single packet: the current
/// session's format and endpoint identity, the emit window, and the time of
/// the last device check. Reopening a session replaces the first two and
/// keeps the window.
pub struct CaptureState {
    pub format: SessionFormat,
    pub device_id: String,
    pub window: EmitWindow,
    pub last_check_ms: u64,
}

impl CaptureState {
    pub open spec fn wf(&self) -> bool {
        self.format.wf() && self.window.wf()
    }

    /// State of a freshly opened session, with an empty window.
    pub fn new(format: SessionFormat, device_id: String, now_ms: u64) -> (s: CaptureState)
        requires
            format.wf(),
        ensures
            s.wf(),
            s.format == format,
            s.device_id@ == device_id@,
            s.window@ == Seq::<i16>::empty(),
            s.last_check_ms == now_ms,
    {
        CaptureState { format, device_id, window: EmitWindow::new(), last_check_ms: now_ms }
    }

    /// Whether more than the check interval has passed since the last check.
    pub fn device_check_due(&self, now_ms: u64) -> (due: bool)
        ensures
            due == (now_ms as int - self.last_check_ms as int > DEVICE_CHECK_INTERVAL_MS as int),
    {
        now_ms > self.last_check_ms && now_ms - self.last_check_ms > DEVICE_CHECK_INTERVAL_MS
    }

    /// Records a device check made at `now_ms`, and tells whether the
    /// default endpoint differs from the session's, so that it must reopen.
    pub fn observe_device(&mut self, now_ms: u64, current_id: &String) -> (changed: bool)
        ensures
            changed == (current_id@ != old(self).device_id@),
            final(self).last_check_ms == now_ms,
            final(self).format == old(self).format,
            final(self).device_id@ == old(self).device_id@,
            final(self).window@ == old(self).window@,
    {
        self.last_check_ms = now_ms;
        !current_id.eq(&self.device_id)
    }

    /// Adopts a reopened session: its format and identity replace the old
    /// ones; the emit window carries over unchanged.
    pub fn reopened(&mut self, format: SessionFormat, device_id: String)
        requires
            old(self).wf(),
            format.wf(),
        ensures
            final(self).wf(),
            final(self).format == format,
            final(self).device_id@ == device_id@,
            final(self).window@ == old(self).window@,
            final(self).last_check_ms == old(self).last_check_ms,
    {
        self.format = format;
        self.device_id = device_id;
    }

    /// Sends mono samples at the session's rate through rate conversion and
    /// both sinks.
    pub fn process_mono(&mut self, mono: &Vec<i16>) -> (p: Processed)
        requires
            old(self).wf(),
            mono@.len() <= usize::MAX / 16000,
        ensures
            final(self).wf(),
            final(self).format == old(self).format,
            final(self).device_id@ == old(self).device_id@,
            final(self).last_check_ms == old(self).last_check_ms,
            p.wav_samples@ == resample_spec(mono@, old(self).format.sample_rate as nat),
            final(self).window@ == window_after(old(self).window@, p.wav_samples@),
            p.payloads@.len() == whole_frames(old(self).window@ + p.wav_samples@),
            forall|i: int|
                0 <= i < p.payloads@.len() ==> (#[trigger] p.payloads@[i])@ == frame_payload(
                    frame_at(old(self).window@ + p.wav_samples@, i),
                ),
    {
        let out = resample_to_canonical(mono, self.format.sample_rate);
        proof {
            let len = mono@.len() as int;
            let rate = self.format.sample_rate as int;
            assert((len * 16000 + rate - 1) / rate <= len * 16000) by (nonlinear_arith)
                requires
                    rate >= 1,
                    len >= 0,
            ;
        }
        let payloads = self.window.push_and_encode(&out);
        Processed { wav_samples: out, payloads }
    }

    /// Processes one packet of interleaved 16-bit frames: downmix to mono,
    /// convert to 16 kHz, and feed both sinks.
    pub fn process_int16(&mut self, samples: &Vec<i16>) -> (p: Processed)
        requires
            old(self).wf(),
            samples@.len() <= usize::MAX / 16000,
        ensures
            final(self).wf(),
            final(self).format == old(self).format,
            final(self).device_id@ == old(self).device_id@,
            final(self).last_check_ms == old(self).last_check_ms,
            p.wav_samples@ == resample_spec(
                downmix_int16_spec(samples@, old(self).format.channels as nat),
                old(self).format.sample_rate as nat,
            ),
            final(self).window@ == window_after(old(self).window@, p.wav_samples@),
            p.payloads@.len() == whole_frames(old(self).window@ + p.wav_samples@),
            forall|i: int|
                0 <= i < p.payloads@.len() ==> (#[trigger] p.payloads@[i])@ == frame_payload(
                    frame_at(old(self).window@ + p.wav_samples@, i),
                ),
    {
        let mono = downmix_int16(samples, self.format.channels);
        self.process_mono(&mono)
    }
}

} // verus!
