//! The tick loop, the audio loop, the writer and the course of a recording.

use std::sync::Arc;

use screenlite::audio::mixer::SourceMetrics;
use screenlite::audio::source::AudioSourceKind;
use screenlite::audio::{AudioChunk, AudioFormat, SampleFormat};
use screenlite::capture::display::resolve_display;
use screenlite::capture::frame::{
    check_item_size, check_surface, convert_surface, must_await_callbacks, needs_staging,
    single_frame, CaptureLog, Snapshot, WgcFrame,
};
use screenlite::consts::MAX_RECORDING_SECS;
use screenlite::convert::{BgraImageView, Nv12Image, Region};
use screenlite::disk::{below_floor, check_before_start, human, required_bytes, DiskFloor};
use screenlite::disk::{DEFAULT_DISK_FLOOR, DISK_MIN_REQUIREMENT};
use screenlite::encoder::{
    audio_unsupported, ConfigureOutcome, EncoderCapabilities, FinalizeOutcome, HardwarePreference,
    VideoEncoder, VideoFrame,
};
use screenlite::engine::output::{local_timestamp, not_writable, LocalTime, NameSearch};
use screenlite::engine::session::{
    check_capture_size, check_display, check_request, check_supported, choose_region, conclude,
    encoder_config, first_frame, join_budget, join_result, stop_result, unknown_configuration,
    FirstFrame, Joined, RegionChoice,
};
use screenlite::engine::sound::{
    audio_queue, weak_threshold, AudioItem, SoundAction, SoundLoop, WeakSignals,
};
use screenlite::engine::tick::{
    frame_queue, SendReport, TickAction, TickInput, TickItem, TickLoop,
};
use screenlite::engine::writer::{
    complete_file, pad_audio_tail, video_submitted, TailPad, TailStep, WriterInput, WriterState,
    WriterTurn,
};
use screenlite::engine::{
    count_drop, frame_captured, is_degraded, recreate_error, EngineState, Metrics, Recorder,
    RecordingConfig, StopReason,
};
use screenlite::error::{MediaError, MediaResult, StopPhase};
use screenlite::shell::commands::{av_difference_ms, finished_payload, real_audio_blocks};
use screenlite::time::{MfTime100ns, Srt100ns};

fn image(value: u8) -> Nv12Image {
    Nv12Image { data: vec![value; 6], stride: 2, width: 2, height: 2 }
}

fn frame(value: u8, srt: i64) -> WgcFrame {
    WgcFrame { nv12: image(value), srt: Srt100ns(srt), sequence: 0 }
}

fn loop_at(now_ns: u64) -> TickLoop {
    TickLoop::new(30, 10, Srt100ns(1_000), image(1), 2, 2, now_ns)
}

fn input(now_ns: u64) -> TickInput {
    TickInput { now_ns, stop_requested: false, fatal: None, idle_ms: 0 }
}

const SECOND: u64 = 1_000_000_000;

#[test]
fn test_display_not_found_is_reported() {
    let err = match resolve_display("not-a-real-display-id", &Vec::new(), &Vec::new()) {
        Ok(_) => panic!("不存在的显示器必须被拒绝"),
        Err(e) => e,
    };
    assert_eq!(err.code(), "DisplayNotFound");
    assert_eq!(err.message(), "显示器不存在或已断开：not-a-real-display-id");
}

#[test]
fn test_fps_outside_allowlist_is_rejected() {
    let mut cfg = RecordingConfig::new("id".into(), "dir".into());
    cfg.fps = 45;
    let err = match check_request(&cfg) {
        Ok(_) => panic!("非白名单帧率必须被拒绝"),
        Err(e) => e,
    };
    assert_eq!(err.code(), "UnsupportedFrameRate");
    assert_eq!(err.message(), "不支持的帧率：45（仅允许 [30, 60, 90]）");
}

#[test]
fn test_output_dir_not_writable_is_reported() {
    let err = not_writable(r"Z:\screenlite-should-not-exist", "系统找不到指定的路径");
    assert_eq!(err.code(), "OutputDirectoryNotWritable");
    assert_eq!(
        err.message(),
        r"输出目录不可写：Z:\screenlite-should-not-exist（系统找不到指定的路径）"
    );
}

#[test]
fn test_insufficient_disk_space_is_refused() {
    let free = 600_000_000_000u64;
    let err = check_before_start(Ok(free), u64::MAX / 2).err().expect("需求远超可用空间时必须拒绝");
    assert_eq!(err.code(), "InsufficientDiskSpace");
    assert_eq!(
        err.message(),
        "磁盘可用空间不足：可用 558.79 GB，本次录制预计需要 8589934592.00 GB"
    );
    let free = check_before_start(Ok(free), 1024 * 1024).expect("正常需求应通过");
    assert!(free > 0);
    let e = MediaError::Internal("x".into());
    assert_eq!(check_before_start(Err(e), 1).unwrap_err().code(), "InternalPanic");
}

#[test]
fn test_uncovered_paths_are_documented() {
    let uncovered = [
        "采集会话被系统关闭（需挂起合成器/拔掉显示器，走 capture.take_fatal）",
        "StopTimeout（停止流程总预算；需构造子线程卡死）",
        "ResolutionChanged（需录制中改分辨率）",
        "HdrDisplayNotSupported（本机无 HDR 显示器）",
        "FramePoolCreateFailed / CaptureSessionStartFailed（需构造系统级失败）",
        "EncoderInitFailed 中途失败（已通过 144fps 场景验证过一次初始化失败）",
    ];
    for item in uncovered {
        println!("⚠️ 未覆盖（本机无法触发）：{}", item);
    }
}

#[test]
fn required_bytes_matches_two_hour_estimate() {
    assert_eq!(required_bytes(12_000_000, 2 * 60 * 60), 12_960_000_000);
    let gib = 12_960_000_000f64 / (1024.0 * 1024.0 * 1024.0);
    assert!((gib - 12.07).abs() < 0.05, "= {:.2} GiB", gib);
}

#[test]
fn required_bytes_has_a_floor() {
    assert_eq!(required_bytes(100_000, 1), DISK_MIN_REQUIREMENT);
}

#[test]
fn required_bytes_is_monotonic_in_duration() {
    let a = required_bytes(12_000_000, 600);
    let b = required_bytes(12_000_000, 1200);
    assert!(b > a);
}

#[test]
fn disk_estimate_agrees_with_double_precision() {
    let mut seed: u64 = 7;
    for _ in 0..5_000 {
        seed = seed.wrapping_mul(6_364_136_223_846_793_005).wrapping_add(1_442_695_040_888_963_407);
        let bitrate = (seed >> 32) as u32 % 20_000_001;
        let secs = (seed >> 8) % 7_201;
        let raw = bitrate as f64 / 8.0 * secs as f64 * 1.2;
        assert_eq!(required_bytes(bitrate, secs), (raw as u64).max(DISK_MIN_REQUIREMENT));
    }
    assert_eq!(required_bytes(u32::MAX, u64::MAX), u64::MAX);
}

#[test]
fn sizes_for_people_agree_with_double_precision() {
    let by_hand = |bytes: u64| {
        let gb = 1024.0 * 1024.0 * 1024.0;
        if bytes as f64 >= gb {
            format!("{:.2} GB", bytes as f64 / gb)
        } else {
            format!("{:.0} MB", bytes as f64 / (1024.0 * 1024.0))
        }
    };
    let mut seed: u64 = 3;
    for round in 0..5_000u32 {
        seed = seed.wrapping_mul(6_364_136_223_846_793_005).wrapping_add(1_442_695_040_888_963_407);
        let bytes = seed >> (round % 64);
        assert_eq!(human(bytes), by_hand(bytes), "{}", bytes);
    }
    for bytes in [0, 524_288, 1_572_864, 1_073_741_823, 1_073_741_824, u64::MAX] {
        assert_eq!(human(bytes), by_hand(bytes), "{}", bytes);
    }
}

#[test]
fn the_disk_floor_can_be_moved() {
    let mut floor = DiskFloor::default();
    assert_eq!(floor.disk_floor_bytes(), DEFAULT_DISK_FLOOR);
    floor.set_disk_floor_for_testing(u64::MAX);
    assert!(below_floor(Some(1_000_000_000_000), floor.disk_floor_bytes()));
    assert!(!below_floor(None, floor.disk_floor_bytes()));
    assert!(!below_floor(Some(DEFAULT_DISK_FLOOR), DEFAULT_DISK_FLOOR));
}

#[test]
fn a_turn_decides_in_order() {
    let mut m = Metrics::default();
    let mut tick = loop_at(0);
    let mut stop = input(20 * SECOND);
    stop.stop_requested = true;
    stop.fatal = Some(MediaError::HdrDisplayNotSupported);
    assert!(matches!(tick.turn(stop, &mut m).0, TickAction::Finish(StopReason::UserRequested)));
    assert_eq!(m.elapsed_100ns, 200_000_000);

    let mut late = input(10 * SECOND);
    late.fatal = Some(MediaError::HdrDisplayNotSupported);
    assert!(matches!(tick.turn(late, &mut m).0, TickAction::Finish(StopReason::DurationLimit)));

    let mut broken = input(SECOND);
    broken.fatal = Some(MediaError::HdrDisplayNotSupported);
    match tick.turn(broken, &mut m).0 {
        TickAction::Fail(e) => assert!(e.message().contains("[HdrDisplayNotSupported]")),
        _ => panic!("应失败"),
    }
    assert!(matches!(tick.turn(input(2 * SECOND), &mut m).0, TickAction::CheckDisk));
    assert_eq!(tick.disk_checked(2 * SECOND, Some(10), 11, &mut m), Some(StopReason::DiskSpaceLow));
    assert_eq!(tick.disk_checked(2 * SECOND, None, 11, &mut m), None);
    assert!(matches!(tick.turn(input(2 * SECOND + 1), &mut m).0, TickAction::Emit));
}

#[test]
fn the_loop_sleeps_until_the_slot_is_due() {
    let mut m = Metrics::default();
    let mut tick = loop_at(0);
    assert!(matches!(tick.turn(input(0), &mut m).0, TickAction::Emit));
    tick.fill_slot(None, &mut m).unwrap();
    tick.settle(SendReport::Queued, 0, &mut m);
    assert!(matches!(tick.turn(input(0), &mut m).0, TickAction::Sleep(5_000_000)));
    assert!(matches!(tick.turn(input(33_333_000), &mut m).0, TickAction::Sleep(333)));
    assert!(matches!(tick.turn(input(33_333_333), &mut m).0, TickAction::Emit));
    assert_eq!(m.slots_late, 0);
    assert!(matches!(tick.turn(input(66_666_667), &mut m).0, TickAction::Emit));
    assert_eq!(m.slots_late, 1);
}

#[test]
fn a_silent_capture_is_noticed_not_punished() {
    let mut m = Metrics::default();
    m.audio_peak_1s = 70;
    let mut tick = loop_at(0);
    let mut quiet = input(SECOND);
    quiet.idle_ms = 3_000;
    let (action, warn) = tick.turn(quiet, &mut m);
    assert!(matches!(action, TickAction::Emit));
    assert!(!warn);
    assert_eq!((m.capture_idle_checks, m.capture_idle_ms_max), (1, 3_000));
    assert_eq!((m.audio_peak_last_sec, m.audio_peak_1s), (70, 0));
    let mut quiet = input(5 * SECOND);
    quiet.idle_ms = 2_999;
    assert!(!tick.turn(quiet, &mut m).1);
    assert_eq!(m.capture_idle_checks, 1);
    let mut quiet = input(6 * SECOND);
    quiet.idle_ms = 8_000;
    assert!(tick.turn(quiet, &mut m).1);
    assert_eq!(m.capture_idle_ms_max, 8_000);
}

#[test]
fn slots_take_the_newest_usable_frame() {
    let mut m = Metrics::default();
    let mut tick = loop_at(0);
    let first = tick.fill_slot(Some(frame(9, 1_000)), &mut m).unwrap();
    assert_eq!((first.pts.0, first.duration.0, first.sequence), (0, 333_333, 0));
    assert!(!first.duplicate);
    assert_eq!(first.nv12.data[0], 9);
    tick.settle(SendReport::Queued, 0, &mut m);

    let repeated = tick.fill_slot(None, &mut m).unwrap();
    assert!(repeated.duplicate);
    assert!(Arc::ptr_eq(&first.nv12, &repeated.nv12), "重复帧共享同一份像素");
    assert_eq!(repeated.pts.0, 333_333);
    tick.settle(SendReport::Queued, 0, &mut m);

    let ahead = tick.fill_slot(Some(frame(5, 9_000_000)), &mut m).unwrap();
    assert!(ahead.duplicate);
    assert_eq!(ahead.nv12.data[0], 9);
    assert_eq!((m.frames_rejected_future, m.frames_duplicated), (1, 2));
    tick.settle(SendReport::Queued, 0, &mut m);

    let back = tick.fill_slot(Some(frame(6, 900)), &mut m);
    assert!(back.unwrap().duplicate, "时间倒退的帧被改到最后一帧之后，仍太靠前");
    assert_eq!(m.timestamp_anomalies, 1);

    let mut odd = frame(1, 2_000);
    odd.nv12.width = 4;
    let e = tick.fill_slot(Some(odd), &mut m).err().unwrap();
    assert_eq!(
        e.message(),
        "媒体线程内部错误：录制中分辨率从 2x2 变为 4x2，V0.1 不支持，已停止（文件保持可用）"
    );
    assert_eq!(m.frames_scheduled, 3);
}

#[test]
fn drops_are_counted_and_marked() {
    let mut m = Metrics::default();
    let mut tick = loop_at(0);
    assert!(!tick.settle(SendReport::Full { freed: true, resent: true }, 1, &mut m));
    assert_eq!(m.frames_dropped_startup, 1);
    assert!(tick.fill_slot(None, &mut m).unwrap().discontinuity);
    assert!(!tick.fill_slot(None, &mut m).unwrap().discontinuity);
    assert!(tick.settle(SendReport::Full { freed: true, resent: false }, SECOND, &mut m));
    assert_eq!(m.frames_dropped_startup, 3);
    assert!(!tick.settle(SendReport::Closed, SECOND, &mut m));
    for _ in 3..60 {
        tick.settle(SendReport::Queued, SECOND, &mut m);
    }
    tick.settle(SendReport::Full { freed: true, resent: true }, SECOND, &mut m);
    assert_eq!((m.frames_dropped_startup, m.frames_dropped_backpressure), (3, 1));
    assert_eq!(m.frames_scheduled, 61);

    let mut n = Metrics::default();
    count_drop(&mut n, true);
    count_drop(&mut n, false);
    assert_eq!((n.frames_dropped_startup, n.frames_dropped_backpressure), (1, 1));
    frame_captured(&mut n, true);
    frame_captured(&mut n, false);
    assert_eq!((n.frames_captured, n.frames_overwritten), (2, 1));
}

#[test]
fn a_full_queue_gives_up_its_oldest_frame() {
    let (mut queue, rx) = frame_queue(30);
    assert_eq!(rx.capacity(), Some(8));
    assert_eq!(frame_queue(60).1.capacity(), Some(16));
    let mut m = Metrics::default();
    let mut tick = loop_at(0);
    for _ in 0..8 {
        let item = tick.fill_slot(None, &mut m).unwrap();
        assert!(!tick.send(item, &mut queue, 0, &mut m));
    }
    assert_eq!(rx.len(), 8);
    let item = tick.fill_slot(None, &mut m).unwrap();
    assert!(tick.send(item, &mut queue, 2 * SECOND, &mut m));
    assert_eq!((rx.len(), m.frames_dropped_startup, m.frames_scheduled), (8, 1, 9));
    let order: Vec<u64> = rx.try_iter().map(|i| i.sequence).collect();
    assert_eq!(order, (1..9).collect::<Vec<u64>>(), "丢最旧的，保留最新的");
    let (mut queue, rx) = frame_queue(30);
    let item = tick.fill_slot(None, &mut m).unwrap();
    assert!(item.discontinuity);
    assert!(!tick.send(item, &mut queue, 0, &mut m));
    assert_eq!((rx.len(), m.frames_dropped_startup, m.frames_scheduled), (1, 1, 10));
    assert_eq!(rx.recv().unwrap().sequence, 9);
    drop(queue);
    assert!(rx.recv().is_err());
}

#[test]
fn only_the_last_ten_seconds_degrade_a_recording() {
    let mut r = Recorder::new();
    let mut tick = TickLoop::new(30, 60, Srt100ns(1_000), image(1), 2, 2, 0);
    let full = SendReport::Full { freed: true, resent: true };
    let mut flags = Vec::new();
    for second in 0..20u64 {
        for slot in 0..30 {
            let now = second * SECOND + slot;
            let report = if second < 10 && slot < 6 { full } else { SendReport::Queued };
            tick.settle(report, now, &mut r.metrics);
        }
        let (action, _) = tick.turn(input((second + 1) * SECOND), &mut r.metrics);
        if let TickAction::CheckDisk = action {
            tick.disk_checked((second + 1) * SECOND, None, 0, &mut r.metrics);
        }
        flags.push(r.status().degraded);
    }
    // The drops of the first two seconds are those of the startup.
    assert_eq!(r.metrics.frames_dropped_startup, 12);
    assert_eq!((r.metrics.frames_scheduled, r.metrics.frames_dropped_backpressure), (600, 48));
    assert_eq!((r.metrics.window_scheduled, r.metrics.window_dropped), (300, 48));
    assert!(!flags[0] && flags[2] && flags[9]);
    assert!(!flags[19], "最近 10 秒没有丢帧");
}

fn format() -> AudioFormat {
    AudioFormat { sample_rate: 48_000, channels: 2, format: SampleFormat::Pcm16 }
}

fn chunk(srt: i64) -> AudioChunk {
    AudioChunk { pcm: vec![3; 1_920], frames: 960, srt: Srt100ns(srt) }
}

#[test]
fn audio_counts_from_the_first_video_frame() {
    let mut m = Metrics::default();
    let (mut outlet, rx) = audio_queue();
    assert_eq!(rx.capacity(), Some(64));
    let mut sound = SoundLoop::new(Srt100ns(1_000_000), format());
    assert!(sound.can_take(&chunk(0)));
    assert!(matches!(
        sound.polled(Ok(Some(chunk(1_000_000))), &mut outlet, &mut m),
        SoundAction::Again
    ));
    assert!(matches!(
        sound.polled(Ok(Some(chunk(1_200_000))), &mut outlet, &mut m),
        SoundAction::Publish
    ));
    let item = rx.try_recv().unwrap();
    assert_eq!((item.pts.0, item.duration.0), (200_000, 200_000));
    assert_eq!(item.chunk.pcm, vec![3; 1_920]);
    assert!(matches!(sound.polled(Ok(None), &mut outlet, &mut m), SoundAction::Pause));
    let e = MediaError::Internal("坏".into());
    match sound.polled(Err(e), &mut outlet, &mut m) {
        SoundAction::Stop(e) => assert_eq!(e.message(), "媒体线程内部错误：坏"),
        _ => panic!("应停止"),
    }
    for i in 0..65 {
        sound.polled(Ok(Some(chunk(1_400_000 + i * 200_000))), &mut outlet, &mut m);
    }
    assert_eq!((rx.len(), m.frames_dropped_audio), (64, 1));
    drop(rx);
    sound.polled(Ok(Some(chunk(90_000_000))), &mut outlet, &mut m);
    assert_eq!(m.frames_dropped_audio, 2);
}

#[test]
fn weak_signals_are_reported_in_time() {
    let mut weak = WeakSignals::new(2, 0);
    let live = SourceMetrics {
        chunks: 5,
        filler_blocks: 0,
        dropped_backwards: 0,
        peak: 0,
        peak_last_sec: 0,
    };
    let sources = vec![
        (AudioSourceKind::Microphone, "m".to_string(), live),
        (AudioSourceKind::SystemLoopback, "s".to_string(), live),
    ];
    for second in 1..5i64 {
        assert!(weak.second(&sources, &vec![10, 500], 100, second * 1000).is_empty());
    }
    let reports = weak.second(&sources, &vec![10, 500], 100, 5_000);
    assert_eq!(reports.len(), 1);
    assert_eq!((reports[0].source, reports[0].peak, reports[0].weak_secs), (0, 10, 5));
    assert_eq!(reports[0].hint(), "麦克风增益 / 静音开关");
    for second in 6..65i64 {
        assert!(weak.second(&sources, &vec![10, 500], 100, second * 1000).is_empty());
    }
    assert_eq!(weak.second(&sources, &vec![10, 500], 100, 65_000).len(), 1);
    assert!(weak.second(&sources, &vec![100, 500], 100, 66_000).is_empty());
    assert!(weak.second(&sources, &vec![10, 500], 100, 200_000).is_empty());
    assert_eq!(weak_threshold(None), 100);
    assert_eq!(weak_threshold(Some("42")), 42);
    assert_eq!(weak_threshold(Some("4x2")), 100);
}

struct FakeEncoder {
    caps: EncoderCapabilities,
    outcome: ConfigureOutcome,
    audio: Vec<(i64, i64, usize)>,
    video: Vec<u64>,
    refuse_after: usize,
}

fn outcome() -> ConfigureOutcome {
    ConfigureOutcome {
        width: 2,
        height: 2,
        fps: 30,
        bitrate: 1,
        profile: "High".into(),
        hardware_requested: true,
        hardware_mft_found: false,
        encoder_params_applied: true,
        notes: vec!["n".into()],
    }
}

fn encoder(refuse_after: usize) -> FakeEncoder {
    let caps = screenlite::encoder::capabilities::probe_h264(
        Ok(Vec::new()),
        HardwarePreference::PreferHardware,
    );
    FakeEncoder { caps, outcome: outcome(), audio: Vec::new(), video: Vec::new(), refuse_after }
}

impl VideoEncoder for FakeEncoder {
    fn capabilities(&self) -> &EncoderCapabilities {
        &self.caps
    }
    fn configure_outcome(&self) -> &ConfigureOutcome {
        &self.outcome
    }
    fn submit(&mut self, frame: &VideoFrame) -> MediaResult<()> {
        self.video.push(frame.sequence);
        assert_eq!(frame.nv12().width, 2);
        Ok(())
    }
    fn flush(&mut self) -> MediaResult<()> {
        Ok(())
    }
    fn finish(self: Box<Self>) -> MediaResult<FinalizeOutcome> {
        Err(MediaError::HdrDisplayNotSupported)
    }
    fn submit_audio(
        &mut self,
        chunk: &AudioChunk,
        _format: AudioFormat,
        pts: MfTime100ns,
        duration: MfTime100ns,
    ) -> MediaResult<()> {
        if self.audio.len() >= self.refuse_after {
            return Err(MediaError::Internal("拒绝".into()));
        }
        self.audio.push((pts.0, duration.0, chunk.pcm.len()));
        Ok(())
    }
}

struct SilentEncoder(FakeEncoder);

impl VideoEncoder for SilentEncoder {
    fn capabilities(&self) -> &EncoderCapabilities {
        &self.0.caps
    }
    fn configure_outcome(&self) -> &ConfigureOutcome {
        &self.0.outcome
    }
    fn submit(&mut self, frame: &VideoFrame) -> MediaResult<()> {
        self.0.submit(frame)
    }
    fn flush(&mut self) -> MediaResult<()> {
        Ok(())
    }
    fn finish(self: Box<Self>) -> MediaResult<FinalizeOutcome> {
        Err(MediaError::HdrDisplayNotSupported)
    }
    fn submit_audio(
        &mut self,
        _chunk: &AudioChunk,
        _format: AudioFormat,
        _pts: MfTime100ns,
        _duration: MfTime100ns,
    ) -> MediaResult<()> {
        Err(audio_unsupported())
    }
}

fn audio_item(pts: i64) -> AudioItem {
    AudioItem {
        chunk: chunk(0),
        format: format(),
        pts: MfTime100ns(pts),
        duration: MfTime100ns(200_000),
    }
}

fn video_item(pts: i64, duplicate: bool) -> TickItem {
    TickItem {
        nv12: Arc::new(image(1)),
        pts: MfTime100ns(pts),
        duration: MfTime100ns(333_333),
        sequence: 4,
        duplicate,
        discontinuity: false,
    }
}

#[test]
fn the_writer_keeps_both_tracks() {
    let mut enc = encoder(2);
    let mut m = Metrics::default();
    let mut s = WriterState::new();
    s.submit_video_item(&mut enc, video_item(666_666, true), &mut m).unwrap();
    assert_eq!(s.video_end, 999_999);
    assert_eq!((m.video_last_pts_100ns, m.encoded_duplicates), (666_666, 1));
    assert_eq!(enc.video, vec![4]);
    video_submitted(&mut m, 1_239);
    assert_eq!((m.submit_ms_x100_sum, m.submit_count, m.frames_encoded), (123, 1, 1));

    assert!(s.submit_audio_item(&mut enc, audio_item(10), &mut m).is_none());
    assert_eq!((s.audio_end, m.audio_last_pts_100ns), (200_010, 200_010));
    assert!(s.submit_audio_item(&mut enc, audio_item(10), &mut m).is_none());
    assert_eq!(m.audio_dropped_backwards, 1);
    assert!(s.submit_audio_item(&mut enc, audio_item(11), &mut m).is_none());
    let e = s.submit_audio_item(&mut enc, audio_item(12), &mut m).unwrap();
    assert_eq!(e.message(), "媒体线程内部错误：拒绝");
    assert!(s.audio_done && s.audio_failed);
    assert_eq!(s.audio_end, 200_011);
    let mut fresh = WriterState::new();
    fresh.audio_closed();
    assert!(fresh.audio_done && !fresh.audio_failed);
    assert_eq!(enc.configure_outcome().profile, "High");
}

#[test]
fn a_backend_without_audio_says_so() {
    let mut enc = SilentEncoder(encoder(9));
    let mut m = Metrics::default();
    let mut s = WriterState::new();
    let e = s.submit_audio_item(&mut enc, audio_item(10), &mut m).unwrap();
    assert_eq!(e.message(), "媒体线程内部错误：该编码后端不支持音频");
    assert_eq!(e.message(), audio_unsupported().message());
    assert_eq!(
        enc.ensure_audio_stream(format()).unwrap_err().message(),
        "媒体线程内部错误：该编码后端不支持音频"
    );
    assert_eq!(enc.capabilities().max_width, 0);
}

#[test]
fn the_audio_track_is_filled_to_the_end() {
    let mut m = Metrics::default();
    let mut s = WriterState::new();
    s.video_end = 1_500_000;
    s.audio_end = 200_000;
    s.last_audio_pts = 0;
    let mut enc = encoder(100);
    assert_eq!(pad_audio_tail(&mut enc, Some(format()), &mut m, &mut s), 1_200_000);
    assert_eq!(enc.audio.len(), 6);
    assert_eq!(enc.audio[0], (200_000, 200_000, 1_920));
    assert_eq!((s.last_audio_pts, m.audio_last_pts_100ns), (1_200_000, 1_400_000));
    assert_eq!((m.audio_chunks, m.audio_filler_blocks), (6, 6));

    // A long gap is filled up to the bound only.
    let mut far = WriterState::new();
    far.video_end = 100_000_000;
    let mut enc = encoder(1_000);
    assert_eq!(pad_audio_tail(&mut enc, Some(format()), &mut m, &mut far), 10_000_000);
    assert_eq!(enc.audio.len(), 50);

    // Blocks that do not divide the bound leave some of it.
    let mut rough = WriterState::new();
    rough.video_end = 100_000_000;
    let mut enc = encoder(1_000);
    let rate = AudioFormat { sample_rate: 11_025, ..format() };
    assert_eq!(pad_audio_tail(&mut enc, Some(rate), &mut m, &mut rough), 9_977_300);
    assert_eq!(enc.audio.len(), 50);

    // A refusal leaves the track shorter.
    let mut short = WriterState::new();
    short.video_end = 1_000_000;
    let mut enc = encoder(2);
    assert_eq!(pad_audio_tail(&mut enc, Some(format()), &mut m, &mut short), 400_000);
    assert_eq!(pad_audio_tail(&mut enc, None, &mut m, &mut short), 0);

    // A packet that would not be followed by a later one blocks the tail.
    let before = m.audio_dropped_backwards;
    let mut odd = WriterState::new();
    odd.video_end = 1_000_000;
    odd.last_audio_pts = 500_000;
    assert_eq!(pad_audio_tail(&mut encoder(9), Some(format()), &mut m, &mut odd), 0);
    assert_eq!(m.audio_dropped_backwards, before + 1);
}

#[test]
fn the_writer_takes_turns() {
    let mut enc = encoder(1);
    let mut m = Metrics::default();
    let mut s = WriterState::new();
    let mut turn = |s: &mut WriterState, i: WriterInput| s.turn(&mut enc, i, &mut m).unwrap();
    assert!(matches!(
        turn(&mut s, WriterInput::Video(video_item(0, false))),
        WriterTurn::FrameWritten
    ));
    assert!(matches!(turn(&mut s, WriterInput::Audio(audio_item(5))), WriterTurn::AudioTaken));
    assert!(matches!(turn(&mut s, WriterInput::Audio(audio_item(5))), WriterTurn::AudioTaken));
    assert!(matches!(turn(&mut s, WriterInput::Audio(audio_item(9))), WriterTurn::AudioRefused(_)));
    assert!(s.audio_failed);
    assert!(matches!(turn(&mut s, WriterInput::AudioClosed), WriterTurn::AudioOver));
    assert!(matches!(turn(&mut s, WriterInput::VideoClosed), WriterTurn::Over));
    let (file, padded) = complete_file(Box::new(enc), Some(format()), &mut m, &mut s);
    assert_eq!((file.unwrap_err().code(), padded), ("HdrDisplayNotSupported", 0));
    let mut s = WriterState::new();
    s.video_end = 450_000;
    let (_, padded) = complete_file(Box::new(encoder(9)), Some(format()), &mut m, &mut s);
    assert_eq!(padded, 400_000);
    let boxed: Box<dyn VideoEncoder> = Box::new(encoder(9));
    let mut s = WriterState::new();
    s.video_end = 450_000;
    assert_eq!(complete_file(boxed, Some(format()), &mut m, &mut s).1, 400_000);
}

#[test]
fn the_tail_block_by_block() {
    let mut s = WriterState::new();
    s.video_end = 500_000;
    let mut pad = TailPad::new(format(), &s);
    assert_eq!(pad.next(), TailStep::Write(MfTime100ns(0)));
    assert_eq!(pad.silence().pcm, vec![0i16; 1_920]);
    assert_eq!(pad.duration().0, 200_000);
    pad.written();
    assert_eq!(pad.next(), TailStep::Write(MfTime100ns(200_000)));
    pad.written();
    assert_eq!(pad.next(), TailStep::Done);
    assert_eq!((pad.end(), pad.padded()), (400_000, 400_000));
}

#[test]
fn a_request_is_checked_before_anything_opens() {
    let mut cfg = RecordingConfig::new("id".into(), "dir".into());
    assert!(check_request(&cfg).is_ok());
    cfg.max_duration_secs = 0;
    assert_eq!(
        check_request(&cfg).unwrap_err().message(),
        "媒体线程内部错误：非法时长上限：0 秒（允许范围 1–7200 秒）"
    );
    cfg.max_duration_secs = MAX_RECORDING_SECS + 1;
    assert!(check_request(&cfg).is_err());
    assert_eq!(check_supported(false).unwrap_err().code(), "ScreenCaptureUnsupported");
    assert!(check_supported(true).is_ok());
    assert_eq!(check_display(true).unwrap_err().code(), "HdrDisplayNotSupported");
    assert!(check_display(false).is_ok());
    assert!(check_capture_size(2560, 1600).is_ok());
    assert_eq!(
        check_capture_size(3840, 2160).unwrap_err().message(),
        "采集分辨率 3840x2160 超过上限 2560x1600"
    );
}

#[test]
fn regions_of_a_recording() {
    let whole = Region { x: 0, y: 0, width: 100, height: 50 };
    assert_eq!(choose_region(None, 100, 50), RegionChoice::Full);
    assert_eq!(choose_region(Some(whole), 100, 50), RegionChoice::Full);
    let part = Region { x: 10, y: 10, width: 21, height: 99 };
    assert_eq!(
        choose_region(Some(part), 100, 50),
        RegionChoice::Part(Region { x: 10, y: 10, width: 20, height: 40 })
    );
    let outside = Region { x: 400, y: 0, width: 10, height: 10 };
    assert_eq!(choose_region(Some(outside), 100, 50), RegionChoice::FallbackToFull);
}

#[test]
fn the_first_frame_is_awaited() {
    assert!(matches!(first_frame(None, None, 5 * SECOND), FirstFrame::Wait));
    match first_frame(None, None, 5 * SECOND + 1) {
        FirstFrame::Failed(e) => assert_eq!(e.message(), "开始采集后 5 秒内没有收到任何帧"),
        _ => panic!("应超时"),
    }
    assert!(matches!(first_frame(None, Some(frame(1, 2)), 9 * SECOND), FirstFrame::Got(_)));
    let e = MediaError::HdrDisplayNotSupported;
    assert!(matches!(first_frame(Some(e), Some(frame(1, 2)), 0), FirstFrame::Failed(_)));
}

#[test]
fn encoder_settings_follow_the_request() {
    let mut cfg = RecordingConfig::new("id".into(), "dir".into());
    let e = encoder_config(&cfg, 1921, 1081, "p".into(), "f".into(), Some(format()));
    assert_eq!((e.width, e.height, e.bitrate, e.gop_seconds), (1920, 1080, 6_220_800, 2));
    cfg.bitrate = Some(5);
    let e = encoder_config(&cfg, 1920, 1080, "p".into(), "f".into(), None);
    assert_eq!((e.bitrate, e.partial_path.as_str(), e.final_path.as_str()), (5, "p", "f"));
    let u = unknown_configuration(&e);
    assert_eq!((u.width, u.profile.as_str(), u.hardware_requested), (1920, "?", false));
}

#[test]
fn the_end_of_a_recording() {
    assert_eq!(join_budget(0), None);
    assert_eq!(join_budget(7), Some(7));
    assert_eq!(join_budget(u64::MAX), Some(15 * SECOND));
    assert_eq!(join_result(Joined::Ended(3), StopPhase::AudioJoin).unwrap(), 3);
    let timed = join_result::<u8>(Joined::TimedOut, StopPhase::AudioJoin).unwrap_err();
    assert_eq!(timed.message(), "停止流程超时（阶段：audio-join）");
    let panicked = join_result::<u8>(Joined::Panicked, StopPhase::EncoderJoin).unwrap_err();
    assert_eq!(panicked.message(), "媒体线程内部错误：EncoderJoin 线程 panic");

    let file = || FinalizeOutcome {
        path: "f".into(),
        bytes: 1,
        samples: 2,
        duration: MfTime100ns(3),
    };
    let ok = conclude(Ok(StopReason::DurationLimit), Ok(Ok(file()))).unwrap();
    assert_eq!((ok.0, ok.1.samples), (StopReason::DurationLimit, 2));
    let first = conclude(
        Err(MediaError::HdrDisplayNotSupported),
        Err(MediaError::ScreenCaptureUnsupported),
    );
    assert_eq!(first.unwrap_err().code(), "HdrDisplayNotSupported");
    let late = conclude(
        Ok(StopReason::UserRequested),
        Ok(Err(MediaError::ScreenCaptureUnsupported)),
    );
    assert_eq!(late.unwrap_err().code(), "ScreenCaptureUnsupported");
    assert_eq!(
        conclude(Ok(StopReason::UserRequested), Err(timed)).unwrap_err().code(),
        "StopTimeout"
    );
    assert_eq!(stop_result(Some(Joined::Ended(Ok(8)))).unwrap(), 8);
    assert_eq!(
        stop_result::<u8>(None).unwrap_err().message(),
        "媒体线程内部错误：媒体线程句柄缺失"
    );
    assert_eq!(
        stop_result::<u8>(Some(Joined::Panicked)).unwrap_err().message(),
        "媒体线程内部错误：媒体线程 panic"
    );
}

#[test]
fn file_names_never_meet() {
    let stamp = local_timestamp(LocalTime {
        year: 2025,
        month: 3,
        day: 9,
        hour: 7,
        minute: 5,
        second: 1,
    });
    assert_eq!(stamp, "2025-03-09_07-05-01");
    let mut search = NameSearch::new(stamp);
    let first = search.candidate().unwrap();
    assert_eq!(first.complete, "ScreenLite_2025-03-09_07-05-01.mp4");
    assert_eq!(first.partial, "ScreenLite_2025-03-09_07-05-01.mp4.partial");
    search.reject();
    assert_eq!(search.candidate().unwrap().complete, "ScreenLite_2025-03-09_07-05-01_1.mp4");
    for _ in 1..1000 {
        search.reject();
    }
    assert_eq!(
        search.candidate().unwrap_err().message(),
        "媒体线程内部错误：无法生成唯一输出文件名"
    );
}

#[test]
fn the_recorder_reports_itself() {
    let mut r = Recorder::new();
    assert_eq!(r.status().state.as_str(), "Preparing");
    r.recording_started(outcome());
    r.metrics.frames_scheduled = 100;
    r.metrics.frames_dropped_backpressure = 5;
    r.metrics.elapsed_100ns = 12_345_678;
    let st = r.status();
    assert_eq!((st.state, st.elapsed_ms, st.degraded), (EngineState::Recording, 1_234, false));
    assert_eq!(st.actual.unwrap().notes, vec!["n".to_string()]);
    r.metrics.frames_dropped_backpressure = 6;
    assert!(r.status().degraded);
    r.metrics.window_dropped = 1;
    assert!(!r.status().degraded);
    r.metrics.window_scheduled = 1;
    assert!(r.status().degraded);
    assert_eq!(r.request_stop(), EngineState::Stopping);
    assert_eq!(r.request_stop(), EngineState::Stopping, "重复请求不改变什么");
    r.ended(None);
    assert_eq!(r.state, EngineState::Idle);
    assert_eq!(r.request_stop(), EngineState::Idle);
    assert_eq!(r.state, EngineState::Idle);
    let file = FinalizeOutcome { path: "f".into(), bytes: 1, samples: 2, duration: MfTime100ns(3) };
    let mut o = r.outcome(file, StopReason::DiskSpaceLow, outcome());
    assert_eq!((o.elapsed_ms, o.stop_reason.as_str()), (1_234, "DiskSpaceLow"));
    let done = finished_payload(&o);
    assert_eq!((done.output_path.as_str(), done.stop_reason.as_str()), ("f", "DiskSpaceLow"));
    assert_eq!((done.duration_ms, done.frames_encoded, done.frames_dropped), (1_234, 2, 6));
    o.video_last_pts_100ns = 10_000;
    o.audio_last_pts_100ns = 29_999;
    assert_eq!(av_difference_ms(&o), -1);
    o.audio_last_pts_100ns = -10_000;
    assert_eq!(av_difference_ms(&o), 2);
    o.audio_chunks = 10;
    o.audio_filler_blocks = 4;
    assert_eq!(real_audio_blocks(&o), 6);
    o.audio_filler_blocks = 11;
    assert_eq!(real_audio_blocks(&o), 0);
    let e = recreate_error(&MediaError::HdrDisplayNotSupported);
    assert!(e.message().starts_with("媒体线程内部错误：[HdrDisplayNotSupported] 目标显示器"));
    assert!(!is_degraded(0, 5));
    for scheduled in [1u64, 19, 20, 21, 1000, 123_456] {
        for dropped in [0u64, 1, 2, 50, 51, 6_172, 6_173] {
            assert_eq!(
                is_degraded(scheduled, dropped),
                dropped as f64 / scheduled as f64 > 0.05,
                "{}/{}",
                dropped,
                scheduled
            );
        }
    }
}

#[test]
fn the_capture_numbers_its_frames() {
    let mut log = CaptureLog::new();
    let f = log.arrived(Ok((image(3), Srt100ns(8))), 40).unwrap();
    assert_eq!((f.sequence, f.srt.0), (0, 8));
    assert_eq!(log.arrived(Ok((image(3), Srt100ns(9))), 50).unwrap().sequence, 1);
    assert_eq!((log.frames_captured(), log.ms_since_last_callback(80)), (2, 30));
    assert_eq!(log.ms_since_last_callback(10), 0);
    assert!(log.arrived(Err(MediaError::HdrDisplayNotSupported), 60).is_none());
    assert!(log.arrived(Err(MediaError::ScreenCaptureUnsupported), 60).is_none());
    assert_eq!(log.take_fatal().unwrap().code(), "HdrDisplayNotSupported");
    assert!(log.take_fatal().is_none());

    assert!(check_item_size(1, 1).is_ok());
    assert_eq!(check_item_size(0, 5).unwrap_err().message(), "媒体线程内部错误：捕获项尺寸非法：0x5");
    assert!(check_surface(87, 1, 1).is_ok());
    assert_eq!(
        check_surface(-10, 0, 0).unwrap_err().message(),
        "捕获帧格式不受支持：期望 BGRA8，实际 DXGI_FORMAT(-10)"
    );
    assert_eq!(check_surface(87, 0, 1).unwrap_err().message(), "媒体线程内部错误：ContentSize 为 0");
    assert!(needs_staging(None, (1, 2)) && needs_staging(Some((1, 3)), (1, 2)));
    assert!(!needs_staging(Some((1, 2)), (1, 2)));
    let px = [0u8; 64];
    let view = BgraImageView { data: &px, pitch: 16, width: 4, height: 4 };
    assert_eq!(convert_surface(&view, None).unwrap().data.len(), 24);
    let part = Region { x: 0, y: 0, width: 2, height: 2 };
    assert_eq!(convert_surface(&view, Some(part)).unwrap().data.len(), 6);
    assert!(matches!(single_frame(Some(image(1)), 9, 5), Snapshot::Got(_)));
    assert!(matches!(single_frame(None, 5, 5), Snapshot::Wait));
    assert!(matches!(single_frame(None, 6, 5), Snapshot::TimedOut(_)));
    assert!(must_await_callbacks(1, 2000) && !must_await_callbacks(1, 2001));
    assert!(!must_await_callbacks(0, 0));
}
