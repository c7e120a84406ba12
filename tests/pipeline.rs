use loopback_capture::control::{resolve_output, token_request, CaptureRegistry, OutputLocation};
use loopback_capture::downmix::downmix_int16;
use loopback_capture::emit::{encode_frame, le_bytes, EmitWindow, FRAME_SAMPLES};
use loopback_capture::format::{classify_width, CaptureError, SampleKind, SessionFormat};
use loopback_capture::pipeline::{next_step, CaptureState, Step};
use loopback_capture::resample::resample_to_canonical;

fn int16_format(channels: u16, rate: u32) -> SessionFormat {
    SessionFormat::from_mix_format(channels, rate, 16).ok().unwrap()
}

#[test]
fn identical_channels_keep_their_value() {
    let s = vec![100i16, 100, -5, -5, 7, 7];
    assert_eq!(downmix_int16(&s, 2), vec![100, -5, 7]);
    let extreme = vec![-32768i16; 8 * 3];
    assert_eq!(downmix_int16(&extreme, 8), vec![-32768, -32768, -32768]);
    let top = vec![32767i16; 6];
    assert_eq!(downmix_int16(&top, 6), vec![32767]);
}

#[test]
fn downmix_rounds_toward_zero() {
    assert_eq!(downmix_int16(&vec![-3, 0], 2), vec![-1]);
    assert_eq!(downmix_int16(&vec![3, 0], 2), vec![1]);
    assert_eq!(downmix_int16(&vec![-1, -1, 1], 3), vec![0]);
}

#[test]
fn downmix_skips_trailing_partial_frame() {
    assert_eq!(downmix_int16(&vec![1, 3, 5], 2), vec![2]);
    assert_eq!(downmix_int16(&vec![9], 2), Vec::<i16>::new());
    assert_eq!(downmix_int16(&vec![4, 5, 6], 1), vec![4, 5, 6]);
}

#[test]
fn canonical_rate_passes_through() {
    let s = vec![32767i16, -32768, 0, 12];
    assert_eq!(resample_to_canonical(&s, 16000), s);
    assert_eq!(resample_to_canonical(&Vec::new(), 16000), Vec::<i16>::new());
}

#[test]
fn resample_48k_takes_every_third() {
    assert_eq!(resample_to_canonical(&vec![1, 2, 3, 4, 5, 6], 48000), vec![1, 4]);
    // 4 * 16000 / 48000 rounds down to a single output sample.
    assert_eq!(resample_to_canonical(&vec![1, 2, 3, 4], 48000), vec![1]);
    assert_eq!(resample_to_canonical(&vec![1, 2], 48000), Vec::<i16>::new());
}

#[test]
fn resample_counts_at_common_rates() {
    let s: Vec<i16> = (0..441).map(|i| i as i16).collect();
    assert_eq!(resample_to_canonical(&s, 44100).len(), 160);
    let s: Vec<i16> = (0..480).map(|i| i as i16).collect();
    let out = resample_to_canonical(&s, 48000);
    assert_eq!(out.len(), 160);
    assert_eq!(out[1], 3);
    assert_eq!(out[159], 477);
}

#[test]
fn resample_8k_repeats_each_sample() {
    assert_eq!(resample_to_canonical(&vec![1, 2], 8000), vec![1, 1, 2, 2]);
}

#[test]
fn resample_44k1_index_sequence() {
    let s: Vec<i16> = (0..10).map(|i| i as i16).collect();
    // 10 * 16000 / 44100 rounds down to 3; floor(k * 44100 / 16000): 0, 2, 5
    assert_eq!(resample_to_canonical(&s, 44100), vec![0, 2, 5]);
}

#[test]
fn little_endian_bytes() {
    assert_eq!(le_bytes(&vec![1, -2, 0x1234]), vec![1, 0, 0xFE, 0xFF, 0x34, 0x12]);
}

#[test]
fn frame_payload_is_base64_of_le_bytes() {
    assert_eq!(encode_frame(&vec![1]), "AQA=");
    assert_eq!(encode_frame(&vec![-1, 0x0102]), "//8CAQ==");
    let zero = encode_frame(&vec![0i16; FRAME_SAMPLES]);
    assert_eq!(zero.len(), 856);
    assert_eq!(zero, format!("{}==", "A".repeat(854)));
}

#[test]
fn window_drains_whole_frames_only() {
    let mut w = EmitWindow::new();
    let a: Vec<i16> = (0..300).map(|i| i as i16).collect();
    assert_eq!(w.push_samples(&a).len(), 0);
    assert_eq!(w.len(), 300);
    let b: Vec<i16> = (300..350).map(|i| i as i16).collect();
    let frames = w.push_samples(&b);
    assert_eq!(frames.len(), 1);
    assert_eq!(frames[0], (0..320).map(|i| i as i16).collect::<Vec<i16>>());
    assert_eq!(w.len(), 30);
    let c: Vec<i16> = vec![5; 700];
    let frames = w.push_samples(&c);
    assert_eq!(frames.len(), 2);
    assert_eq!(frames[0][0], 320);
    assert_eq!(frames[0][29], 349);
    assert_eq!(frames[0][30], 5);
    assert_eq!(w.len(), 90);
}

#[test]
fn window_stays_short_over_many_chunks() {
    let mut w = EmitWindow::new();
    for n in [0usize, 1, 319, 320, 321, 640, 1000, 7] {
        w.push_samples(&vec![3i16; n]);
        assert!(w.len() < FRAME_SAMPLES);
    }
}

#[test]
fn window_payloads_are_encoded_frames() {
    let mut w = EmitWindow::new();
    let s: Vec<i16> = (0..650).map(|i| i as i16).collect();
    let payloads = w.push_and_encode(&s);
    assert_eq!(payloads.len(), 2);
    assert_eq!(payloads[0], encode_frame(&s[0..320].to_vec()));
    assert_eq!(payloads[1], encode_frame(&s[320..640].to_vec()));
    assert_eq!(w.len(), 10);
}

#[test]
fn width_classifies_sample_kind() {
    assert_eq!(classify_width(32), SampleKind::Float32);
    assert_eq!(classify_width(16), SampleKind::Int16);
    assert_eq!(classify_width(24), SampleKind::Int16);
}

#[test]
fn mix_format_errors() {
    assert!(matches!(SessionFormat::from_mix_format(0, 48000, 32), Err(CaptureError::NoChannels)));
    assert!(matches!(SessionFormat::from_mix_format(2, 0, 32), Err(CaptureError::NoSampleRate)));
    let f = SessionFormat::from_mix_format(2, 48000, 32).ok().unwrap();
    assert_eq!(f.channels, 2);
    assert_eq!(f.sample_rate, 48000);
    assert_eq!(f.kind, SampleKind::Float32);
}

#[test]
fn stop_wins_over_everything() {
    assert_eq!(next_step(true, true, 10), Step::Shutdown);
    assert_eq!(next_step(true, false, 0), Step::Shutdown);
    assert_eq!(next_step(false, true, 10), Step::CheckDevice);
    assert_eq!(next_step(false, false, 0), Step::Idle);
    assert_eq!(next_step(false, false, 480), Step::Acquire);
}

#[test]
fn stereo_int16_packet_end_to_end() {
    let mut st = CaptureState::new(int16_format(2, 16000), "dev".to_string(), 0);
    let p = st.process_int16(&vec![32767, 32767, -32768, -32768]);
    assert_eq!(p.wav_samples, vec![32767, -32768]);
    assert!(p.payloads.is_empty());
    assert_eq!(st.window.len(), 2);
}

#[test]
fn live_frames_cross_packets() {
    let mut st = CaptureState::new(int16_format(1, 48000), "dev".to_string(), 0);
    let packet = vec![7i16; 720];
    let p = st.process_int16(&packet);
    assert_eq!(p.wav_samples.len(), 240);
    assert!(p.payloads.is_empty());
    let p = st.process_int16(&packet);
    assert_eq!(p.payloads.len(), 1);
    assert_eq!(p.payloads[0], encode_frame(&vec![7i16; 320]));
    assert_eq!(st.window.len(), 160);
}

#[test]
fn device_check_interval() {
    let mut st = CaptureState::new(int16_format(2, 48000), "a".to_string(), 5000);
    assert!(!st.device_check_due(5000));
    assert!(!st.device_check_due(6000));
    assert!(st.device_check_due(6001));
    assert!(!st.device_check_due(100));
    assert!(!st.observe_device(6001, &"a".to_string()));
    assert_eq!(st.last_check_ms, 6001);
    assert!(st.observe_device(7002, &"b".to_string()));
}

#[test]
fn reopen_keeps_window_and_adds_samples() {
    let mut st = CaptureState::new(int16_format(2, 16000), "a".to_string(), 0);
    let first = st.process_int16(&vec![1i16; 400]);
    assert_eq!(first.wav_samples.len(), 200);
    st.reopened(int16_format(1, 32000), "b".to_string());
    assert_eq!(st.window.len(), 200);
    assert_eq!(st.device_id, "b");
    let second = st.process_int16(&vec![2i16; 400]);
    assert_eq!(second.wav_samples.len(), 200);
    assert_eq!(second.payloads.len(), 1);
    let mut expected = vec![1i16; 200];
    expected.extend(vec![2i16; 120]);
    assert_eq!(second.payloads[0], encode_frame(&expected));
    assert_eq!(st.window.len(), 80);
}

#[test]
fn start_twice_keeps_one_worker() {
    let mut reg: CaptureRegistry<u32> = CaptureRegistry::new();
    assert!(!reg.is_active());
    assert!(reg.start(1));
    assert!(!reg.start(2));
    assert!(reg.is_active());
    assert_eq!(reg.stop(), Some(1));
    assert_eq!(reg.stop(), None);
    assert!(!reg.is_active());
}

#[test]
fn output_location_preference() {
    let s = |x: &str| Some(x.to_string());
    assert!(matches!(resolve_output(s("/x.wav"), s("/d"), None, None),
        Ok(OutputLocation::Given(p)) if p == "/x.wav"));
    assert!(matches!(resolve_output(None, s("/d"), s("/h"), s("/l")),
        Ok(OutputLocation::Default { dir, downloads_subfolder: false }) if dir == "/d"));
    assert!(matches!(resolve_output(None, None, s("/h"), s("/l")),
        Ok(OutputLocation::Default { dir, downloads_subfolder: true }) if dir == "/h"));
    assert!(matches!(resolve_output(None, None, None, s("/l")),
        Ok(OutputLocation::Default { dir, downloads_subfolder: false }) if dir == "/l"));
    assert!(matches!(resolve_output(None, None, None, None), Err(CaptureError::NoOutputDirectory)));
}

#[test]
fn token_request_needs_both_credentials() {
    assert!(matches!(token_request(None, Some("westus".to_string())), Err(CaptureError::MissingKey)));
    assert!(matches!(token_request(None, None), Err(CaptureError::MissingKey)));
    assert!(matches!(token_request(Some("k".to_string()), None), Err(CaptureError::MissingRegion)));
    let t = token_request(Some("k".to_string()), Some("westus".to_string())).ok().unwrap();
    assert_eq!(t.key, "k");
    assert_eq!(t.url, "https://westus.api.cognitive.microsoft.com/sts/v1.0/issueToken");
}
