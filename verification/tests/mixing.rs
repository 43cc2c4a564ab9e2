//! Grid adapters, gains and the mixer.

use std::cell::{Cell, RefCell};

use screenlite::audio::gain::{apply_gain, clamp_gain, pcm16_from_single, Gain, GAIN_MAX_BITS};
use screenlite::audio::mixer::{sum_blocks, AudioMixer, GridAdapter, Slot};
use screenlite::audio::source::{AudioDirection, AudioSource, AudioSourceKind, EndpointSpec};
use screenlite::audio::tap::Held;
use screenlite::audio::{
    convert_to_pcm16, pcm_peak, AudioChunk, AudioFormat, SampleFormat,
};
use screenlite::error::{MediaError, MediaResult};
use screenlite::time::Srt100ns;

struct FakeSource {
    fmt: AudioFormat,
    script: RefCell<Vec<Vec<i16>>>,
    infinite: bool,
    srt: Cell<i64>,
    now: Cell<i64>,
    opened: String,
    broken: bool,
}

impl FakeSource {
    fn new(script: Vec<Vec<i16>>) -> Self {
        Self::with_options(script, false)
    }
    fn with_options(script: Vec<Vec<i16>>, infinite: bool) -> Self {
        Self {
            fmt: AudioFormat {
                sample_rate: 48_000,
                channels: 2,
                format: SampleFormat::Pcm16,
            },
            script: RefCell::new(script),
            infinite,
            srt: Cell::new(0),
            now: Cell::new(0),
            opened: "假源(48k/2ch)".into(),
            broken: false,
        }
    }
}

impl AudioSource for FakeSource {
    fn start(_spec: &EndpointSpec) -> MediaResult<Self> {
        unreachable!("假源不经 start 构造")
    }
    fn format(&self) -> AudioFormat {
        self.fmt
    }
    fn poll(&self) -> MediaResult<Option<AudioChunk>> {
        if self.broken {
            return Err(MediaError::Internal("断开".into()));
        }
        self.now.set(self.now.get() + 200_000);
        let mut script = self.script.borrow_mut();
        if script.is_empty() {
            if self.infinite {
                let srt = Srt100ns(self.srt.get());
                self.srt.set(self.srt.get() + 200_000);
                return Ok(Some(AudioChunk { pcm: vec![100i16; 8], frames: 4, srt }));
            }
            return Ok(None);
        }
        let pcm = script.remove(0);
        let frames = (pcm.len() / self.fmt.channels as usize) as u32;
        let srt = Srt100ns(self.srt.get());
        self.srt.set(self.srt.get() + 200_000);
        Ok(Some(AudioChunk { pcm, frames, srt }))
    }
    fn srt_now(&self) -> MediaResult<Srt100ns> {
        Ok(Srt100ns(self.now.get()))
    }
    fn stop(&self) {}
    fn opened(&self) -> String {
        self.opened.clone()
    }
}

fn fmt() -> AudioFormat {
    AudioFormat { sample_rate: 48_000, channels: 2, format: SampleFormat::Pcm16 }
}

fn gain(g: f32) -> Gain {
    Gain(g.to_bits())
}

fn adapter(kind: AudioSourceKind, s: FakeSource, g: f32) -> GridAdapter {
    GridAdapter::new(kind, Box::new(s), gain(g), 2)
}

#[test]
fn grid_slots_preserve_content_and_device_time() {
    let s = FakeSource::new(vec![vec![100i16, 200, 300, 400, 500, 600, 700, 800]]);
    let (mut mixer, _) =
        AudioMixer::new(vec![adapter(AudioSourceKind::SystemLoopback, s, 1.0)]).unwrap();
    let a = mixer.poll().unwrap().unwrap();
    assert_eq!(a.pcm, vec![100, 200, 300, 400]);
    assert_eq!(a.srt.0, 0, "格起点 = 首样本的设备时间");
    let b = mixer.poll().unwrap().unwrap();
    assert_eq!(b.pcm, vec![500, 600, 700, 800]);
    assert_eq!(
        b.srt.0, 416,
        "格起点按消费掉的样本数推进（2 帧 @48k = 416.67 → 取整 416；正式 960 帧的格恰为 200_000 整 ✓）"
    );
}

#[test]
fn an_adapter_shows_what_it_holds() {
    let s = FakeSource::new(vec![vec![7i16, -9, 3, 4]]);
    let mut a =
        GridAdapter::holding(AudioSourceKind::Microphone, Held(Box::new(s)), gain(9.0), 0);
    assert_eq!((a.kind(), a.endpoint()), (AudioSourceKind::Microphone, "假源(48k/2ch)"));
    assert_eq!((a.gain(), a.format()), (gain(2.0), fmt()));
    assert_eq!(a.metrics().chunks, 0);
    match a.poll_slot().unwrap() {
        Slot::Real(c) => assert_eq!((c.pcm, c.frames), (vec![14i16, -18], 1)),
        other => panic!("应为真实块：{other:?}"),
    }
    match a.poll_slot().unwrap() {
        Slot::Real(c) => assert_eq!((c.pcm, c.srt.0), (vec![6i16, 8], 208)),
        other => panic!("应为真实块：{other:?}"),
    }
    assert_eq!((a.metrics().chunks, a.metrics().filler_blocks, a.metrics().peak), (2, 0, 9));
    a.stop();
}

#[test]
fn per_source_gain_applied_before_sum() {
    let a = FakeSource::new(vec![vec![10_000i16; 8]]);
    let b = FakeSource::new(vec![vec![10_000i16; 8]]);
    let (mut mixer, _) = AudioMixer::new(vec![
        adapter(AudioSourceKind::SystemLoopback, a, 0.5),
        adapter(AudioSourceKind::Microphone, b, 2.0),
    ])
    .unwrap();
    let out = mixer.poll().unwrap().unwrap();
    assert_eq!(out.pcm, vec![25_000i16; 4]);
}

#[test]
fn gain_zero_mutes_source_and_gain_clamped() {
    assert_eq!(clamp_gain(gain(-1.0)), gain(0.0));
    assert_eq!(clamp_gain(gain(5.0)), Gain(GAIN_MAX_BITS));
    assert_eq!(clamp_gain(gain(f32::NAN)), gain(1.0));
    assert_eq!(Gain(GAIN_MAX_BITS), gain(2.0));
    let a = FakeSource::new(vec![vec![10_000i16; 8]]);
    let (mut mixer, _) =
        AudioMixer::new(vec![adapter(AudioSourceKind::SystemLoopback, a, 0.0)]).unwrap();
    let out = mixer.poll().unwrap().unwrap();
    assert_eq!(out.pcm, vec![0i16; 4]);
}

#[test]
fn two_full_scale_sources_do_not_overflow_i16() {
    let a = FakeSource::new(vec![vec![30_000i16; 8]]);
    let b = FakeSource::new(vec![vec![30_000i16; 8]]);
    let (mut mixer, _) = AudioMixer::new(vec![
        adapter(AudioSourceKind::SystemLoopback, a, 2.0),
        adapter(AudioSourceKind::Microphone, b, 2.0),
    ])
    .unwrap();
    let out = mixer.poll().unwrap().unwrap();
    assert!(out.pcm.iter().all(|v| *v == i16::MAX));
}

#[test]
fn filler_blocks_are_per_source() {
    let a = FakeSource::with_options(vec![], true);
    let b = FakeSource::with_options(vec![vec![500i16; 8]], false);
    let mut ga = adapter(AudioSourceKind::SystemLoopback, a, 1.0);
    let mut gb = adapter(AudioSourceKind::Microphone, b, 1.0);
    for _ in 0..3 {
        assert!(matches!(ga.poll_slot().unwrap(), Slot::Real(_)));
    }
    assert_eq!(ga.metrics.chunks, 3);
    assert_eq!(ga.metrics.filler_blocks, 0);
    assert_eq!(ga.metrics.real_blocks(), 3);
    assert!(matches!(gb.poll_slot().unwrap(), Slot::Real(_)));
    let mut silent = 0;
    for _ in 0..15 {
        if matches!(gb.poll_slot().unwrap(), Slot::Silent(_)) {
            silent += 1;
        }
    }
    assert!(silent >= 1, "断流后应产出静音格");
    assert!(gb.metrics.filler_blocks >= 1, "B 的 filler 应随断流增长");
    assert_eq!(ga.metrics.filler_blocks, 0, "A 一直有数据，filler 必须为 0");
}

#[test]
fn mismatched_formats_refuse_to_mix_defensively() {
    let s1 = FakeSource::new(vec![vec![0i16; 8]]);
    let mut s2 = FakeSource::new(vec![vec![0i16; 8]]);
    s2.fmt.sample_rate = 44_100;
    let r = AudioMixer::new(vec![
        adapter(AudioSourceKind::SystemLoopback, s1, 1.0),
        adapter(AudioSourceKind::Microphone, s2, 1.0),
    ]);
    assert!(r.is_err(), "格式不一致必须拒绝混音（防御性），而不是悄悄混出错音");
}

#[test]
fn mismatch_is_described_in_full() {
    let s1 = FakeSource::new(vec![]);
    let mut s2 = FakeSource::new(vec![]);
    s2.fmt.sample_rate = 44_100;
    let other = s2.fmt;
    let e = AudioMixer::new(vec![
        adapter(AudioSourceKind::SystemLoopback, s1, 1.0),
        adapter(AudioSourceKind::Microphone, s2, 1.0),
    ])
    .err()
    .unwrap();
    assert_eq!(
        e.message(),
        format!(
            "媒体线程内部错误：音频源格式不一致：{:?} vs {:?}（正常路径由系统转换保证一致；命中此错误 = 连回退都失败了）",
            fmt(),
            other
        )
    );
}

#[test]
fn empty_mixer_is_silent_not_a_panic() {
    let (mut mixer, _) = AudioMixer::new(Vec::new()).unwrap();
    assert!(mixer.is_empty());
    assert!(mixer.poll().unwrap().is_none());
    assert!(mixer.format().is_none());
}

#[test]
fn kind_maps_to_endpoint_direction() {
    assert_eq!(AudioSourceKind::SystemLoopback.direction(), AudioDirection::Render);
    assert_eq!(AudioSourceKind::Microphone.direction(), AudioDirection::Capture);
    assert_eq!(
        EndpointSpec::default_of(AudioDirection::Capture).id,
        None,
        "默认设备 = id 为 None（将来按 id 打开只是把 Some(id) 传进来，trait 形状不变）"
    );
    let _ = fmt();
}

#[test]
fn test_pcm_peak_silence_and_min() {
    assert_eq!(pcm_peak(&[]), 0);
    assert_eq!(pcm_peak(&[0, 0, 0]), 0, "数字静音 → peak 0（用于区分「设备本身静音」）");
    assert_eq!(pcm_peak(&[0, -100, 50]), 100);
    assert_eq!(pcm_peak(&[i16::MIN]), 32768, "i16::MIN 的绝对值不能溢出");
}

#[test]
fn an_error_of_a_source_is_passed_on() {
    let good = FakeSource::new(vec![vec![5i16; 4], vec![6i16; 4]]);
    let mut bad = FakeSource::new(vec![]);
    bad.broken = true;
    let (mut mixer, described) = AudioMixer::new(vec![
        adapter(AudioSourceKind::SystemLoopback, good, 1.0),
        adapter(AudioSourceKind::Microphone, bad, 1.0),
    ])
    .unwrap();
    assert_eq!(described, vec!["假源(48k/2ch)".to_string(), "假源(48k/2ch)".to_string()]);
    assert_eq!(mixer.poll().unwrap_err().message(), "媒体线程内部错误：断开");
    assert_eq!(mixer.source_count(), 2);
    assert_eq!(mixer.source_metrics()[0].2.chunks, 1);
    assert_eq!(mixer.source_metrics()[1].2.chunks, 0);
    mixer.stop();
}

#[test]
fn peaks_of_the_last_second_start_anew() {
    let s = FakeSource::new(vec![vec![-300i16; 4], vec![20i16; 4]]);
    let (mut mixer, _) =
        AudioMixer::new(vec![adapter(AudioSourceKind::Microphone, s, 1.0)]).unwrap();
    assert!(mixer.poll().unwrap().is_some());
    assert_eq!(mixer.take_1s_peaks(), vec![300]);
    assert!(mixer.poll().unwrap().is_some());
    assert_eq!(mixer.take_1s_peaks(), vec![20]);
    assert_eq!(mixer.source_metrics()[0].2.peak, 300);
}

#[test]
fn a_packet_from_the_past_is_dropped() {
    let mut a = adapter(AudioSourceKind::Microphone, FakeSource::new(vec![]), 1.0);
    let first = AudioChunk { pcm: vec![1i16; 4], frames: 2, srt: Srt100ns(1_000_000) };
    assert!(matches!(a.accept_chunk(first), Slot::Real(_)));
    let past = AudioChunk { pcm: vec![9i16; 4], frames: 2, srt: Srt100ns(10) };
    assert!(matches!(a.accept_chunk(past), Slot::Pending));
    assert_eq!(a.metrics.dropped_backwards, 1);
    assert_eq!(a.metrics.chunks, 1);
}

#[test]
fn sums_are_limited_and_cut_to_the_shortest() {
    let a = [30_000i16, -30_000, 5, 6];
    let b = [30_000i16, -30_000, 7];
    let mut out = vec![1, 2, 3, 4, 5];
    assert_eq!(sum_blocks(&[&a, &b], &mut out), 3);
    assert_eq!(out, vec![i16::MAX, i16::MIN, 12]);
    assert_eq!(sum_blocks(&[], &mut out), 0);
    assert!(out.is_empty());
    let mut swapped = Vec::new();
    sum_blocks(&[&a, &b], &mut out);
    sum_blocks(&[&b, &a], &mut swapped);
    assert_eq!(out, swapped);
}

#[test]
fn gains_agree_with_single_precision() {
    let mut seed: u32 = 12345;
    for round in 0..20_000u32 {
        seed = seed.wrapping_mul(1_664_525).wrapping_add(1_013_904_223);
        let v = (seed >> 16) as u16 as i16;
        seed = seed.wrapping_mul(1_664_525).wrapping_add(1_013_904_223);
        let g = match round % 4 {
            0 => (seed >> 8) as f32 / 16_777_216.0 * 2.0,
            1 => f32::from_bits(seed % 0x4000_0001),
            2 => (seed % 201) as f32 / 100.0,
            _ => [0.0, 0.5, 1.0, 1.5, 2.0, -0.0][seed as usize % 6],
        };
        let want = (v as f32 * g).clamp(-32768.0, 32767.0) as i16;
        assert_eq!(apply_gain(v, gain(g)), want, "{} * {}", v, g);
    }
}

#[test]
fn device_samples_agree_with_single_precision() {
    let by_hand = |f: f32| (f.clamp(-1.0, 1.0) * 32767.0).round() as i16;
    let mut seed: u32 = 99;
    for round in 0..20_000u32 {
        seed = seed.wrapping_mul(1_664_525).wrapping_add(1_013_904_223);
        let f = match round % 3 {
            0 => f32::from_bits(seed),
            1 => (seed >> 8) as f32 / 16_777_216.0 * 2.0 - 1.0,
            _ => ((seed >> 16) as f32 + 0.5) / 32767.0,
        };
        assert_eq!(pcm16_from_single(f.to_bits()), by_hand(f), "{}", f);
    }
    assert_eq!(pcm16_from_single(f32::NAN.to_bits()), 0);
    assert_eq!(pcm16_from_single(f32::INFINITY.to_bits()), 32767);
    assert_eq!(pcm16_from_single(f32::NEG_INFINITY.to_bits()), -32767);
}

#[test]
fn device_buffers_are_read_low_byte_first() {
    let pcm = AudioFormat { sample_rate: 48_000, channels: 2, format: SampleFormat::Pcm16 };
    let bytes = [0x01u8, 0x00, 0xff, 0xff, 0x00, 0x80, 0xff, 0x7f];
    assert_eq!(convert_to_pcm16(&bytes, 2, &pcm), vec![1, -1, i16::MIN, i16::MAX]);
    let float = AudioFormat { sample_rate: 48_000, channels: 1, format: SampleFormat::Float32 };
    let mut bytes = Vec::new();
    for f in [0.5f32, -1.0, 2.0] {
        bytes.extend_from_slice(&f.to_bits().to_le_bytes());
    }
    assert_eq!(convert_to_pcm16(&bytes, 3, &float), vec![16384, -32767, 32767]);
    assert_eq!(pcm.frame_bytes(), 4);
    let quiet = AudioChunk::silence(&pcm, 3, Srt100ns(7));
    assert_eq!((quiet.pcm, quiet.frames, quiet.srt.0), (vec![0i16; 6], 3, 7));
}
