//! The course of a recording from its request to its file.

use screenlite::audio::endpoint::opened_with;
use screenlite::audio::gain::{Gain, ONE_BITS};
use screenlite::audio::source::{AudioSource, AudioSourceKind, EndpointSpec};
use screenlite::audio::tap::Held;
use screenlite::audio::{AudioChunk, AudioFormat, AudioSourceSpec, SampleFormat};
use screenlite::capture::device::{device_created, feature_levels, DeviceStep};
use screenlite::capture::frame::WgcFrame;
use screenlite::convert::{Nv12Image, Region};
use screenlite::encoder::FinalizeOutcome;
use screenlite::engine::output::OutputNames;
use screenlite::engine::pipeline::{Pipeline, Stage};
use screenlite::engine::session::RegionChoice;
use screenlite::engine::{RecordingConfig, StopReason};
use screenlite::error::{MediaError, MediaResult, OsError, StopPhase};
use screenlite::time::{MfTime100ns, Srt100ns};

struct Quiet(AudioFormat);

impl AudioSource for Quiet {
    fn start(_spec: &EndpointSpec) -> MediaResult<Self> {
        Err(MediaError::ScreenCaptureUnsupported)
    }
    fn format(&self) -> AudioFormat {
        self.0
    }
    fn poll(&self) -> MediaResult<Option<AudioChunk>> {
        Ok(None)
    }
    fn srt_now(&self) -> MediaResult<Srt100ns> {
        Ok(Srt100ns(0))
    }
    fn stop(&self) {}
    fn opened(&self) -> String {
        "静".into()
    }
}

fn fmt(rate: u32) -> AudioFormat {
    AudioFormat { sample_rate: rate, channels: 2, format: SampleFormat::Float32 }
}

fn config() -> RecordingConfig {
    let mut cfg = RecordingConfig::new("d".into(), "out".into());
    cfg.region = Some(Region { x: 10, y: 10, width: 101, height: 50 });
    cfg.audio_sources.push(AudioSourceSpec {
        kind: AudioSourceKind::Microphone,
        gain: Gain(ONE_BITS),
    });
    cfg
}

fn frame() -> WgcFrame {
    WgcFrame {
        nv12: Nv12Image { data: Vec::new(), stride: 101, width: 101, height: 51 },
        srt: Srt100ns(77),
        sequence: 0,
    }
}

/// Up to the wait for the first frame.
fn capturing() -> Pipeline {
    let mut p = Pipeline::new(config()).ok().unwrap();
    assert_eq!(p.stage, Stage::Target);
    p.display_resolved(Ok(false)).unwrap();
    assert_eq!(p.stage, Stage::OutputDir);
    p.done(Ok(())).unwrap();
    p.support_known(true).unwrap();
    assert_eq!(p.stage, Stage::Runtime);
    p.done(Ok(())).unwrap();
    p.display_resolved(Ok(false)).unwrap();
    p.done(Ok(())).unwrap();
    p.item_created(Ok((1920, 1080))).unwrap();
    assert_eq!(p.region, RegionChoice::Part(Region { x: 10, y: 10, width: 100, height: 50 }));
    p.done(Ok(())).unwrap();
    assert_eq!(p.stage, Stage::FirstFrame);
    p
}

/// Up to the question about the disk, with two sources.
fn prepared(second_rate: u32) -> (Pipeline, bool) {
    let mut p = capturing();
    assert!(p.looked_for_frame(None, None, 0).unwrap().is_none());
    assert!(p.looked_for_frame(None, Some(frame()), 0).unwrap().is_some());
    assert_eq!((p.size, p.t0.0), ((100, 50), 77));
    let names = OutputNames { partial: "p".into(), complete: "c".into() };
    p.names_chosen(Ok(names)).unwrap();
    assert_eq!(p.next_source().unwrap().kind, AudioSourceKind::SystemLoopback);
    p.source_opened(Held(Box::new(Quiet(fmt(48_000)))));
    assert_eq!(p.next_source().unwrap().kind, AudioSourceKind::Microphone);
    p.source_opened(Held(Box::new(Quiet(fmt(second_rate)))));
    assert!(p.next_source().is_none());
    let (mixer, why) = p.audio_ready();
    assert_eq!(p.stage, Stage::Disk);
    (p, !mixer.is_empty() && why.is_none())
}

#[test]
fn a_recording_runs_to_its_file() {
    let (mut p, mixed) = prepared(48_000);
    assert!(mixed);
    assert_eq!(p.audio, Some(fmt(48_000)));
    let e = p.encoder_settings("p".into(), "c".into());
    assert_eq!((e.width, e.height, e.bitrate, e.audio), (100, 50, 4_000_000, p.audio));
    assert_eq!(p.disk_known(Ok(1 << 40), e.bitrate).unwrap(), 1 << 40);
    p.done(Ok(())).unwrap();
    assert_eq!(p.stage, Stage::Record);
    p.ticks_ended(Ok(StopReason::DurationLimit));
    p.capture_closed();
    p.audio_stopped();
    assert_eq!(p.stage, Stage::JoinWriter);
    let file = FinalizeOutcome { path: "c".into(), bytes: 1, samples: 9, duration: MfTime100ns(3) };
    let (reason, file) = p.writer_joined(Ok(Ok(file))).unwrap();
    assert_eq!((reason, file.samples, p.stage), (StopReason::DurationLimit, 9, Stage::Ended));
}

#[test]
fn a_failed_loop_still_completes_the_file() {
    let (mut p, _) = prepared(48_000);
    p.disk_known(Ok(u64::MAX), 1).unwrap();
    p.done(Ok(())).unwrap();
    p.ticks_ended(Err(MediaError::HdrDisplayNotSupported));
    assert_eq!(p.stage, Stage::CloseCapture);
    p.capture_closed();
    assert_eq!(p.stage, Stage::StopAudio);
    p.audio_stopped();
    let late = MediaError::StopTimeout { phase: StopPhase::EncoderJoin };
    assert_eq!(p.writer_joined(Err(late)).unwrap_err().code(), "HdrDisplayNotSupported");
}

#[test]
fn sources_of_two_formats_give_a_silent_video() {
    let (p, mixed) = prepared(44_100);
    assert!(!mixed);
    assert_eq!(p.audio, None);
    let mut p = capturing();
    p.looked_for_frame(None, Some(frame()), 0).unwrap();
    p.names_chosen(Ok(OutputNames { partial: "p".into(), complete: "c".into() })).unwrap();
    p.source_missing();
    p.source_opened(Held(Box::new(Quiet(fmt(44_100)))));
    assert_eq!(p.audio_ready().0.source_count(), 1);
    assert_eq!(p.audio, Some(fmt(44_100)));
}

#[test]
fn every_step_can_end_the_recording() {
    let mut cfg = config();
    cfg.fps = 31;
    assert_eq!(Pipeline::new(cfg).err().unwrap().code(), "UnsupportedFrameRate");
    let mut p = Pipeline::new(config()).ok().unwrap();
    assert_eq!(p.display_resolved(Ok(true)).unwrap_err().code(), "HdrDisplayNotSupported");
    assert_eq!(p.stage, Stage::Failed);
    let mut p = Pipeline::new(config()).ok().unwrap();
    p.display_resolved(Ok(false)).unwrap();
    p.done(Ok(())).unwrap();
    assert_eq!(p.support_known(false).unwrap_err().code(), "ScreenCaptureUnsupported");
    let mut p = Pipeline::new(config()).ok().unwrap();
    p.display_resolved(Ok(false)).unwrap();
    let dir = MediaError::OutputDirectoryNotWritable { path: "x".into() };
    assert_eq!(p.done(Err(dir)).unwrap_err().code(), "OutputDirectoryNotWritable");
    assert_eq!(p.stage, Stage::Failed);

    let mut p = capturing();
    p.stage = Stage::Item;
    assert_eq!(p.item_created(Ok((2561, 10))).unwrap_err().code(), "ResolutionExceedsLimit");
    let mut p = capturing();
    let e = p.looked_for_frame(None, None, 5_000_000_001).unwrap_err();
    assert_eq!((e.code(), p.stage), ("CaptureNoFrames", Stage::Failed));
    let (mut p, _) = prepared(48_000);
    let e = p.disk_known(Ok(1_000_000_000), 4_000_000).unwrap_err();
    assert_eq!((e.code(), p.stage), ("InsufficientDiskSpace", Stage::Failed));
}

#[test]
fn the_graphics_device_gets_two_chances() {
    let os = || OsError { code: -1, text: "无".into() };
    assert_eq!(feature_levels(false), vec![0xb100, 0xb000, 0xa100]);
    assert_eq!(feature_levels(true), vec![0xb000, 0xa100]);
    assert!(matches!(device_created(false, Ok(true)), DeviceStep::Opened));
    assert!(matches!(device_created(false, Err(os())), DeviceStep::Again));
    match device_created(true, Err(os())) {
        DeviceStep::Failed(e) => assert_eq!(e.code(), "Win32Error"),
        _ => panic!("应失败"),
    }
    match device_created(false, Ok(false)) {
        DeviceStep::Failed(e) => {
            assert_eq!(e.message(), "媒体线程内部错误：D3D11CreateDevice 未返回设备")
        }
        _ => panic!("应失败"),
    }
}

#[test]
fn an_endpoint_falls_back_to_its_own_format() {
    let os = || OsError { code: -1, text: "无".into() };
    assert_eq!(opened_with(true, Err(os())).unwrap().sample_rate, 48_000);
    assert_eq!(opened_with(false, Ok(Some((16, 1, 8_000)))).unwrap().format, SampleFormat::Pcm16);
    assert_eq!(opened_with(false, Err(os())).unwrap_err().message(), "GetMixFormat");
    assert_eq!(
        opened_with(false, Ok(None)).unwrap_err().message(),
        "媒体线程内部错误：GetMixFormat 返回空指针"
    );
}
