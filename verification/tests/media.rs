//! Displays, endpoints, encoder set-up, errors, texts and finished files.

use screenlite::audio::endpoint::{
    check_frequency, describe_endpoint, find_endpoint, friendly_name, list_endpoints,
    packet_to_chunk, read_format, requested_48k_f32, requested_format, slot_frames_for,
    stream_flags, RawEndpoint,
};
use screenlite::audio::source::{AudioDirection, EndpointSpec};
use screenlite::audio::{AudioChunk, AudioFormat, SampleFormat};
use screenlite::capture::display::{
    config_entry, gdi_monitor, is_hdr_color_space, list_displays, normalize_gdi,
    primary_display_id, resolve_display, stable_id,
};
use screenlite::capture::windows::{list_top_level_windows, snap_candidate, WindowFacts};
use screenlite::convert::Nv12Image;
use screenlite::encoder::capabilities::{
    enumeration_flags, probe_h264, EncoderMftInfo,
};
use screenlite::encoder::media_types::{
    aac_output_type, encoder_params, h264_output_type, nv12_input_type, pack2, pcm_input_type,
    unpack2, H264Profile,
};
use screenlite::encoder::planes::{audio_write, copy_planes};
use screenlite::encoder::setup::{
    finalize_outcome, rename_error, EncoderSetup, SampleCounter, SetupStage,
};
use screenlite::encoder::{
    check_encoder_size, check_frame_size, recorded_duration, CodecId, EncoderConfig,
    HardwarePreference, HardwareSupport,
};
use screenlite::error::{MediaError, OsError, StopPhase};
use screenlite::mf::{startup_failure, MfRuntime, RPC_E_CHANGED_MODE};
use screenlite::scheduler::{slot_duration_mf, slot_time_mf};
use screenlite::text::{decode_utf16, parse_number, push_hex, push_signed, to_upper, trim, wide_to_string};
use screenlite::time::{MfTime100ns, Srt100ns};
use screenlite::verify::{check_exists, AudioScan, VideoScan};

fn wide(s: &str) -> Vec<u16> {
    s.encode_utf16().collect()
}

fn os(code: i32) -> OsError {
    OsError { code, text: "拒绝访问".into() }
}

#[test]
fn displays_are_joined_by_device_name() {
    let mut name = wide("\\\\.\\DISPLAY1");
    name.extend([0, 65, 66]);
    let m1 = gdi_monitor(&name, -10, 0, 1910, 1080, 1);
    assert_eq!((m1.device_name.as_str(), m1.width, m1.height), ("\\\\.\\DISPLAY1", 1920, 1080));
    assert!(m1.primary);
    let m2 = gdi_monitor(&wide("\\\\.\\DISPLAY2"), 5, 5, 1, 1, 2);
    assert_eq!((m2.width, m2.height, m2.primary), (0, 0, false));
    let c = config_entry(&wide("\\\\?\\display1"), &wide("Dell 屏"), -1, 0x1a, 7);
    assert_eq!(c.stable_id, "FFFFFFFF0000001A:7");
    assert_eq!(stable_id(2, 0xabcdef, 12), format!("{:08X}{:08X}:{}", 2, 0xabcdef, 12));
    let monitors = vec![m1, m2];
    let list = list_displays(&monitors, &vec![c], &vec![("\\\\.\\Display2".into(), true)]);
    assert_eq!(list[0].id, "FFFFFFFF0000001A:7");
    assert_eq!(list[0].friendly_name, "Dell 屏");
    assert!(!list[0].hdr && list[1].hdr);
    assert_eq!(list[1].id, "gdi:\\\\.\\DISPLAY2");
    assert_eq!(primary_display_id(&list).as_deref(), Some("FFFFFFFF0000001A:7"));
    assert_eq!(resolve_display("gdi:\\\\.\\DISPLAY2", &list, &monitors).unwrap(), (1, 1));
    assert_eq!(resolve_display("x", &list, &monitors).unwrap_err().code(), "DisplayNotFound");
    assert_eq!(
        resolve_display("gdi:\\\\.\\DISPLAY2", &list, &Vec::new()).unwrap_err().code(),
        "DisplayNotFound"
    );
    assert_eq!(normalize_gdi("\\\\.\\\\\\?\\ab1"), "AB1");
    assert!(is_hdr_color_space(12) && is_hdr_color_space(14) && is_hdr_color_space(17));
    assert!(!is_hdr_color_space(0));
}

fn facts() -> WindowFacts {
    WindowFacts {
        visible: true,
        title_len: 3,
        own: false,
        left: 10,
        top: 20,
        right: 110,
        bottom: 120,
    }
}

#[test]
fn windows_to_snap_to() {
    let w = snap_candidate(facts(), &wide("abc")).unwrap();
    assert_eq!((w.title.as_str(), w.x, w.y, w.w, w.h), ("abc", 10, 20, 100, 100));
    assert!(snap_candidate(facts(), &wide(" \t")).is_none());
    assert!(snap_candidate(WindowFacts { visible: false, ..facts() }, &wide("a")).is_none());
    assert!(snap_candidate(WindowFacts { title_len: 0, ..facts() }, &wide("a")).is_none());
    assert!(snap_candidate(WindowFacts { own: true, ..facts() }, &wide("a")).is_none());
    assert!(snap_candidate(WindowFacts { right: 89, ..facts() }, &wide("a")).is_none());
    assert!(snap_candidate(WindowFacts { bottom: 79, ..facts() }, &wide("a")).is_none());
    let list = list_top_level_windows(&vec![w], 50, 40);
    assert_eq!((list[0].left, list[0].top, list[0].right, list[0].bottom), (10, 20, 50, 40));
    let w = snap_candidate(facts(), &wide("abc")).unwrap();
    assert!(list_top_level_windows(&vec![w], 0, 40).is_empty());
}

#[test]
fn audio_endpoints() {
    let f = requested_48k_f32();
    assert_eq!((f.samples_per_sec, f.avg_bytes_per_sec, f.block_align), (48_000, 384_000, 8));
    assert_eq!(requested_format().sample_rate, 48_000);
    assert_eq!(stream_flags(AudioDirection::Render), 0x8802_0000);
    assert_eq!(stream_flags(AudioDirection::Capture), 0x8800_0000);
    assert!(check_frequency(1).is_ok());
    assert_eq!(
        check_frequency(0).unwrap_err().message(),
        "媒体线程内部错误：QueryPerformanceFrequency 返回非正值"
    );
    assert_eq!(read_format(16, 2, 44_100).unwrap().format, SampleFormat::Pcm16);
    assert_eq!(read_format(32, 1, 44_100).unwrap().format, SampleFormat::Float32);
    assert!(read_format(24, 2, 44_100).unwrap_err().message().contains("24 位（仅支持 16/32）"));
    assert!(read_format(16, 0, 44_100).unwrap_err().message().contains("0 声道 @ 44100 Hz"));
    assert_eq!(friendly_name(Some(" ".into()), "id"), "id");
    assert_eq!(friendly_name(Some(" 耳机 ".into()), "id"), " 耳机 ");
    assert_eq!(friendly_name(None, "id"), "id");
    let raw = vec![
        RawEndpoint { id: "a".into(), name: Some("扬声器".into()) },
        RawEndpoint { id: "".into(), name: Some("无".into()) },
        RawEndpoint { id: "b".into(), name: None },
    ];
    let list = list_endpoints(AudioDirection::Render, "b", &raw);
    assert_eq!(list.len(), 2);
    assert_eq!((list[0].name.as_str(), list[0].is_default), ("扬声器", false));
    assert_eq!((list[1].name.as_str(), list[1].is_default), ("b", true));
    let ids = vec!["a".to_string(), "b".to_string()];
    assert_eq!(find_endpoint(&ids, "b").unwrap(), 1);
    assert_eq!(
        find_endpoint(&ids, "c").unwrap_err().message(),
        "媒体线程内部错误：指定的音频端点不存在：c"
    );
    assert_eq!(
        describe_endpoint("麦", AudioDirection::Capture, requested_format()),
        "麦（Capture，48000 Hz / 2 声道）"
    );
    assert_eq!((slot_frames_for(48_000), slot_frames_for(44_100), slot_frames_for(3)), (960, 882, 1));
    let spec = EndpointSpec::by_id(AudioDirection::Render, "a".into());
    assert_eq!(spec.id.as_deref(), Some("a"));
}

#[test]
fn device_packets() {
    let f = AudioFormat { sample_rate: 48_000, channels: 1, format: SampleFormat::Pcm16 };
    let bytes = [1u8, 0, 2, 0];
    let c = packet_to_chunk(&f, 2, 0, Some(&bytes), 3_579_545, 3_579_545);
    assert_eq!((c.pcm, c.frames, c.srt.0), (vec![1, 2], 2, 10_000_000));
    let c = packet_to_chunk(&f, 2, 2, Some(&bytes), 5, 10_000_000);
    assert_eq!((c.pcm, c.srt.0), (vec![0, 0], 5));
    assert_eq!(packet_to_chunk(&f, 3, 0, None, 5, 10_000_000).pcm, vec![0; 3]);
}

#[test]
fn what_the_encoders_can_do() {
    assert_eq!(enumeration_flags(true), 68);
    assert_eq!(enumeration_flags(false), 71);
    let named = |n: &str| EncoderMftInfo { friendly_name: n.into(), hardware: true };
    let caps = probe_h264(Ok(vec![named("A"), named("B")]), HardwarePreference::PreferHardware);
    assert_eq!(caps.hardware, HardwareSupport::Available);
    assert_eq!(caps.notes[0], "枚举到硬件 H.264 编码器 MFT：A, B");
    assert_eq!(caps.notes.len(), 3);
    let caps = probe_h264(
        Err(MediaError::EncoderEnumerationFailed(os(-1))),
        HardwarePreference::PreferSoftware,
    );
    assert_eq!(caps.hardware, HardwareSupport::Unavailable);
    assert_eq!(caps.notes[0], "硬件编码器枚举失败：编码器枚举失败：拒绝访问");
    assert_eq!(caps.notes[1], "未枚举到硬件 H.264 编码器 MFT");
    assert_eq!(caps.notes[2], "诊断模式：已强制软件编码路径（硬件开关 = FALSE）");
    assert_eq!(CodecId::HEVC.as_str(), "HEVC");
    assert_eq!(screenlite::encoder::capabilities::friendly_name(None), "(unnamed)");
    assert_eq!(screenlite::encoder::capabilities::friendly_name(Some(&[0, 65])), "(unnamed)");
    assert_eq!(screenlite::encoder::capabilities::friendly_name(Some(&[78, 86, 0, 65])), "NV");
}

fn config() -> EncoderConfig {
    EncoderConfig {
        width: 1920,
        height: 1080,
        fps: 60,
        bitrate: 8_000_001,
        gop_seconds: 2,
        hardware: HardwarePreference::PreferHardware,
        partial_path: "p".into(),
        final_path: "f".into(),
        audio: None,
    }
}

#[test]
fn stream_descriptions() {
    assert_eq!(pack2(1920, 1080), (1920u64 << 32) | 1080);
    assert_eq!(unpack2(pack2(7, u32::MAX)), (7, u32::MAX));
    let out = h264_output_type(&config(), H264Profile::Main);
    assert_eq!((out.frame_rate, out.pixel_aspect), (pack2(60, 1), pack2(1, 1)));
    assert_eq!(out.profile.as_str(), "Main");
    assert_eq!(nv12_input_type(&config()).frame_size, pack2(1920, 1080));
    let p = encoder_params(&config());
    assert_eq!((p.mean_bitrate, p.max_bitrate, p.gop_size), (8_000_001, 12_000_001, 120));
    let f = AudioFormat { sample_rate: 48_000, channels: 2, format: SampleFormat::Float32 };
    let aac = aac_output_type(&f);
    assert_eq!((aac.bits_per_sample, aac.bytes_per_second, aac.profile_level), (16, 16_000, 0x29));
    let pcm = pcm_input_type(&f);
    assert_eq!((pcm.block_align, pcm.bytes_per_second), (4, 192_000));
}

#[test]
fn the_writer_is_set_up_in_order() {
    let mut s = EncoderSetup::new(true, true, true);
    assert_eq!(s.stage(), SetupStage::AddVideo(H264Profile::High));
    assert!(s.stream_added(Err(os(-5))).is_ok());
    assert_eq!(s.stage(), SetupStage::AddVideo(H264Profile::Main));
    assert!(s.stream_added(Ok(3)).is_ok());
    assert_eq!(s.stage(), SetupStage::AddAudio);
    assert!(s.stream_added(Ok(4)).is_ok());
    assert_eq!((s.video_stream(), s.audio_stream()), (3, Some(4)));
    assert_eq!(s.stage(), SetupStage::SetVideoInput { with_params: true, fallback: false });
    assert!(s.accepted(Err(os(-2147024809))).is_ok());
    assert_eq!(s.stage(), SetupStage::SetVideoInput { with_params: false, fallback: true });
    assert!(s.accepted(Ok(())).is_ok());
    assert_eq!(s.stage(), SetupStage::SetAudioInput);
    assert!(s.accepted(Ok(())).is_ok());
    assert_eq!(s.stage(), SetupStage::BeginWriting);
    assert!(s.accepted(Ok(())).is_ok());
    assert_eq!(s.stage(), SetupStage::Done);
    let mut caps = probe_h264(Ok(Vec::new()), HardwarePreference::PreferHardware);
    let o = s.outcome(&config(), &mut caps);
    assert_eq!((o.profile.as_str(), o.encoder_params_applied), ("Main", false));
    assert!(o.hardware_requested && !o.hardware_mft_found);
    assert_eq!(o.notes[0], "High profile 被拒，已回退 Main profile");
    assert_eq!(o.notes[1], "编码参数被拒绝（0x80070057），回退编码器默认值");
    assert_eq!(o.notes.len(), 5);
    assert!(caps.notes.is_empty());
}

#[test]
fn a_refused_set_up_names_its_stage() {
    let mut s = EncoderSetup::new(false, false, false);
    assert!(s.stream_added(Err(os(1))).is_ok());
    assert_eq!(s.stream_added(Err(os(1))).unwrap_err().code(), "MuxerInitFailed");
    let mut s = EncoderSetup::new(true, false, true);
    assert!(s.stream_added(Ok(0)).is_ok());
    assert_eq!(s.stream_added(Err(os(1))).unwrap_err().code(), "MuxerInitFailed");
    let mut s = EncoderSetup::new(false, false, false);
    assert!(s.stream_added(Ok(0)).is_ok());
    let e = s.accepted(Err(os(1))).unwrap_err();
    assert_eq!(e.message(), "编码器初始化失败（阶段：SetInputMediaType(NV12)）：拒绝访问");
    assert!(s.accepted(Ok(())).is_ok());
    let e = s.accepted(Err(os(1))).unwrap_err();
    assert_eq!(e.message(), "编码器初始化失败（阶段：BeginWriting）：拒绝访问");
    let mut s = EncoderSetup::new(false, true, true);
    s.stream_added(Ok(0)).unwrap();
    s.accepted(Err(os(1))).unwrap();
    let e = s.accepted(Err(os(1))).unwrap_err();
    assert!(e.message().contains("SetInputMediaType(NV12, fallback)"));
}

#[test]
fn planes_and_samples_in_buffers() {
    let image = Nv12Image { data: (1..=24).collect(), stride: 4, width: 4, height: 4 };
    let mut dst = vec![99u8; 6 * 5];
    copy_planes(&image, &mut dst, 5);
    for row in 0..6usize {
        let want: Vec<u8> = (1..=4).map(|i| (row * 4) as u8 + i).collect();
        assert_eq!(dst[row * 5..row * 5 + 4], want[..]);
        assert_eq!(dst[row * 5 + 4], 99);
    }
    let c = AudioChunk { pcm: vec![1, -2], frames: 1, srt: Srt100ns(0) };
    assert_eq!(audio_write(&c, Some(3)), Some((3, vec![1, 0, 0xfe, 0xff])));
    assert_eq!(audio_write(&c, None), None);
    let none = AudioChunk { pcm: vec![], frames: 0, srt: Srt100ns(0) };
    assert_eq!(audio_write(&none, Some(3)), None);
}

#[test]
fn sizes_and_outcomes_of_an_encoder() {
    assert!(check_encoder_size(2, 2).is_ok());
    assert_eq!(
        check_encoder_size(3, 2).unwrap_err().message(),
        "帧格式转换失败：NV12 编码需要偶数尺寸，实际 3x2"
    );
    assert!(check_frame_size(2, 2, 2, 2).is_ok());
    assert!(check_frame_size(2, 4, 2, 2).unwrap_err().message().contains("帧尺寸 2x4"));
    assert_eq!(recorded_duration(90, 30).0, 30_000_000);
    assert_eq!(recorded_duration(5, 0).0, 50_000_000);
    let o = finalize_outcome("f.mp4", None, 30, 30);
    assert_eq!((o.path.as_str(), o.bytes, o.samples, o.duration.0), ("f.mp4", 0, 30, 10_000_000));
    let mut counter = SampleCounter::new();
    counter.note_sample();
    counter.note_sample();
    assert_eq!(counter.samples_created(), 2);
    assert_eq!(
        rename_error("a", "b", "占用").message(),
        "媒体线程内部错误：重命名 a -> b 失败：占用"
    );
}

#[test]
fn every_error_has_its_code_and_text() {
    let all = vec![
        MediaError::ScreenCaptureUnsupported,
        MediaError::CaptureFormatUnsupported { actual: "a".into() },
        MediaError::HdrDisplayNotSupported,
        MediaError::UnsupportedFrameRate { fps: 1, allowed: &[30] },
        MediaError::ResolutionExceedsLimit { width: 1, height: 2, max_width: 3, max_height: 4 },
        MediaError::DisplayNotFound { display_id: "d".into() },
        MediaError::FramePoolCreateFailed(os(1)),
        MediaError::CaptureSessionStartFailed(os(1)),
        MediaError::CaptureNoFrames(5),
        MediaError::CaptureStalled(6),
        MediaError::FrameConversionFailed { reason: "r".into() },
        MediaError::EncoderEnumerationFailed(os(1)),
        MediaError::EncoderInitFailed { stage: "s", source: os(1) },
        MediaError::EncoderHardwareFallback { reason: "r".into() },
        MediaError::OutputDirectoryNotWritable { path: "p".into() },
        MediaError::InsufficientDiskSpace {
            free: 1,
            required: 2,
            free_human: "1".into(),
            required_human: "2".into(),
        },
        MediaError::MuxerInitFailed(os(1)),
        MediaError::Mp4FinalizeFailed(os(1)),
        MediaError::StopTimeout { phase: StopPhase::Drain },
        MediaError::Internal("i".into()),
        MediaError::win32("CoInitializeEx", os(1)),
    ];
    let mut codes: Vec<&str> = all.iter().map(|e| e.code()).collect();
    assert!(all.iter().all(|e| !e.message().is_empty()));
    assert_eq!(all[9].message(), "采集中断：6 秒没有帧回调");
    assert_eq!(all[6].message(), "创建 WGC 帧池失败：拒绝访问");
    assert_eq!(all[13].message(), "硬件编码不可用，已回退软件编码：r");
    assert_eq!(all[17].message(), "MP4 finalize 失败：拒绝访问");
    codes.sort();
    codes.dedup();
    assert_eq!(codes.len(), 21);
    let copy = os(7).duplicate();
    assert_eq!((copy.code, copy.text.as_str()), (7, "拒绝访问"));
}

#[test]
fn the_runtime_starts_once() {
    assert!(MfRuntime::start(os(0), &Ok(())).is_ok());
    assert!(MfRuntime::start(os(1), &Ok(())).is_ok());
    assert!(MfRuntime::start(os(RPC_E_CHANGED_MODE), &Ok(())).is_ok());
    assert_eq!(MfRuntime::start(os(-1), &Ok(())).unwrap_err().code(), "Win32Error");
    let e = MfRuntime::start(os(0), &Err(startup_failure("缺"))).unwrap_err();
    assert_eq!(e.message(), "媒体线程内部错误：MFStartup 失败：缺");
}

#[test]
fn a_complete_file_has_no_gaps() {
    let mut scan = VideoScan::new(30);
    for n in 0..90u64 {
        let t = slot_time_mf(MfTime100ns(0), n, 30).0;
        scan.sample(t, Some(slot_duration_mf(n, 30).0));
    }
    let p = scan.finish("f", pack2(1920, 1080), pack2(1920, 1088)).unwrap();
    assert_eq!((p.frame_count, p.gaps, p.duration_ms()), (90, 0, 3_000));
    assert_eq!((p.native_width, p.native_height, p.width, p.height), (1920, 1080, 1920, 1088));
    scan.sample(40_000_000, None);
    let p = scan.finish("f", 0, 0).unwrap();
    assert_eq!((p.gaps, p.duration_100ns), (1, 40_333_333));
    let mut hole = VideoScan::new(30);
    for ts in [0, 333_333, 1_333_332] {
        hole.sample(ts, Some(333_333));
    }
    let p = hole.finish("f", 0, 0).unwrap();
    assert_eq!((p.frame_count, p.duration_100ns, p.gaps), (3, 1_666_665, 1));
    let mut dense = VideoScan::new(30);
    for ts in [0, 666_666, 1_333_332] {
        dense.sample(ts, Some(333_333));
    }
    assert_eq!(dense.finish("f", 0, 0).unwrap().gaps, 0);
    let e = VideoScan::new(0).finish("f", 0, 0).unwrap_err();
    assert_eq!(e.message(), "媒体线程内部错误：f 解码出 0 帧（文件损坏或未正确 finalize）");
    assert!(check_exists("f", true).is_ok());
    assert_eq!(check_exists("f", false).unwrap_err().message(), "媒体线程内部错误：产物不存在：f");

    let mut audio = AudioScan::new();
    audio.sample(0, Some(200_000));
    audio.sample(200_000, None);
    let p = audio.finish(Some(48_000), Some(2));
    assert_eq!((p.sample_count, p.duration_ms(), p.channels), (2, 20, 2));
    assert_eq!(AudioScan::new().finish(None, None).sample_rate, 0);
}

#[test]
fn texts() {
    assert_eq!(decode_utf16(&wide("a😀中")), "a😀中");
    let broken = [0xd83du16, 65, 0xde00];
    assert_eq!(decode_utf16(&broken), String::from_utf16_lossy(&broken));
    assert_eq!(wide_to_string(&[72, 105, 0, 33]), "Hi");
    assert_eq!(trim("\u{3000} a b\u{85}\n"), "a b");
    for c in ['\u{9}', '\u{d}', ' ', '\u{85}', '\u{a0}', '\u{1680}', '\u{2003}', '\u{2028}', '\u{2029}', '\u{202f}', '\u{205f}', '\u{3000}', '\u{200b}', '\u{feff}', 'x'] {
        let s = format!("{}k{}", c, c);
        assert_eq!(trim(&s), s.trim());
    }
    assert_eq!(to_upper("aZ-é1"), "aZ-é1".to_ascii_uppercase());
    for s in ["0", "+7", "18446744073709551615", "18446744073709551616", "", "+", "-1", "1 ", "１"] {
        assert_eq!(parse_number(s), s.parse::<u64>().ok(), "{:?}", s);
    }
    let mut out = String::from("x");
    push_signed(&mut out, i64::MIN);
    push_signed(&mut out, 5);
    push_hex(&mut out, 0xdead);
    assert_eq!(out, "x-92233720368547758085dead");
}
