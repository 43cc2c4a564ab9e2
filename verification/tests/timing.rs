//! Thresholds, slot arithmetic and time conversion.

use screenlite::consts::{
    default_bitrate, is_allowed_fps, queue_capacity_for, ALLOWED_FPS, MAX_BITRATE,
    MAX_CAPTURE_HEIGHT, MAX_CAPTURE_WIDTH, MF_TICKS_PER_SEC, MIN_BITRATE, QUEUE_CAPACITY_MAX,
};
use screenlite::scheduler::{slot_deadline_ns, slot_duration_mf, slot_time_mf, slots_elapsed};
use screenlite::time::{srt_from_qpc, MfTime100ns, QpcTicks, Srt100ns, Timeline};

#[test]
fn bitrate_1080p30_is_about_6_2_mbps() {
    let b = default_bitrate(1920, 1080, 30);
    assert_eq!(b, 6_220_800);
}

#[test]
fn bitrate_clamps_low_and_high() {
    assert_eq!(default_bitrate(320, 240, 15), 4_000_000);
    assert_eq!(default_bitrate(7680, 4320, 60), 20_000_000);
}

#[test]
fn fps_allowlist_only_accepts_30_60_90() {
    for fps in [30u32, 60, 90] {
        assert!(is_allowed_fps(fps), "{} 应在白名单内", fps);
    }
    for fps in [0u32, 15, 24, 25, 29, 50, 120, 123, 144, 165, 200, 240] {
        assert!(!is_allowed_fps(fps), "{} 不应在白名单内", fps);
    }
}

#[test]
fn queue_capacity_keeps_a_constant_time_cushion() {
    assert_eq!(queue_capacity_for(30), 8);
    for fps in [60u32, 90, 120, 144] {
        let cap = queue_capacity_for(fps);
        let cushion_ms = cap as f64 / fps as f64 * 1000.0;
        assert!(
            cushion_ms >= 250.0,
            "{}fps 的队列只缓冲了 {:.0}ms（应 ≥250ms）",
            fps,
            cushion_ms
        );
        assert!(cap <= QUEUE_CAPACITY_MAX);
    }
    let c30 = queue_capacity_for(30) as f64 / 30.0;
    let c144 = queue_capacity_for(144) as f64 / 144.0;
    assert!((c30 - c144).abs() / c30 < 0.3);
}

#[test]
fn resolution_cap_allows_native_2560x1600_but_rejects_4k() {
    let fits = |w: u32, h: u32| w <= MAX_CAPTURE_WIDTH && h <= MAX_CAPTURE_HEIGHT;
    assert!(fits(2560, 1600), "本机原生 2560x1600 必须允许");
    assert!(fits(2560, 1440));
    assert!(fits(1920, 1080));
    assert!(!fits(3840, 2160), "4K 必须被拒绝");
    assert!(!fits(3440, 1440), "超宽屏超过长边上限，应拒绝");
}

#[test]
fn queue_capacity_in_frames() {
    assert_eq!(queue_capacity_for(0), 8);
    assert_eq!(queue_capacity_for(60), 16);
    assert_eq!(queue_capacity_for(90), 24);
    assert_eq!(queue_capacity_for(144), 38);
    assert_eq!(queue_capacity_for(150), 40);
    assert_eq!(queue_capacity_for(240), 40);
    assert_eq!(queue_capacity_for(u32::MAX), 40);
    // The same numbers in double precision.
    for fps in 0..400u32 {
        let frames = (fps as f64 * 0.267).round() as usize;
        assert_eq!(queue_capacity_for(fps), frames.clamp(8, 40), "{} fps", fps);
    }
}

#[test]
fn bitrate_is_a_tenth_of_a_bit_per_pixel() {
    assert_eq!(default_bitrate(2560, 1600, 30), 12_288_000);
    assert_eq!(default_bitrate(0, 0, 0), MIN_BITRATE);
    assert_eq!(default_bitrate(2560, 1600, 90), MAX_BITRATE);
}

fn nv12_ticks(n: u64, fps: u32) -> i64 {
    slot_time_mf(MfTime100ns(0), n, fps).0
}

#[test]
fn test_slot_time_no_drift() {
    assert_eq!(nv12_ticks(9000, 30), 3_000_000_000);
    let accumulated = 9000i64 * 333_333;
    assert_eq!(accumulated, 2_999_997_000);
    assert_eq!(nv12_ticks(9000, 30) - accumulated, 3000);
    assert_eq!(nv12_ticks(108_000, 30), 36_000_000_000);
}

#[test]
fn test_slot_time_strictly_increasing() {
    let mut prev = -1i64;
    for n in 0..1000u64 {
        let t = nv12_ticks(n, 30);
        assert!(t > prev, "slot {} 未递增", n);
        prev = t;
    }
}

#[test]
fn test_slot_duration_is_1_or_2_ticks_of_variation() {
    let mut d_min = i64::MAX;
    let mut d_max = i64::MIN;
    for n in 0..1000u64 {
        let d = slot_duration_mf(n, 30).0;
        d_min = d_min.min(d);
        d_max = d_max.max(d);
    }
    assert_eq!(d_min, 333_333);
    assert_eq!(d_max, 333_334);
    assert!(d_max - d_min <= 1);
}

#[test]
fn test_slot_deadline_ns() {
    assert_eq!(slot_deadline_ns(0, 30), 0);
    assert_eq!(slot_deadline_ns(30, 30), 1_000_000_000);
    assert_eq!(slot_deadline_ns(9000, 30), 300_000_000_000);
}

#[test]
fn test_slots_elapsed() {
    assert_eq!(slots_elapsed(MfTime100ns(0), 30), 0);
    assert_eq!(slots_elapsed(MfTime100ns(333_333), 30), 0);
    assert_eq!(slots_elapsed(MfTime100ns(1_000_000), 30), 3);
    assert_eq!(slots_elapsed(MfTime100ns(10_000_000), 30), 30);
}

#[test]
fn slot_math_is_exact_for_every_allowed_frame_rate() {
    for fps in ALLOWED_FPS {
        let n10 = (10 * fps) as u64;
        assert_eq!(
            slot_time_mf(MfTime100ns(0), n10, fps).0,
            10 * MF_TICKS_PER_SEC,
            "{}fps：10 秒槽位时间不精确",
            fps
        );

        let mut prev = -1i64;
        for n in 0..n10.min(2000) {
            let t = slot_time_mf(MfTime100ns(0), n, fps).0;
            assert!(t > prev, "{}fps：槽位 {} 未严格递增", fps, n);
            prev = t;
        }

        let ideal = MF_TICKS_PER_SEC as f64 / fps as f64;
        let mut seen = Vec::new();
        for n in 0..200u64 {
            let d = slot_duration_mf(n, fps).0;
            assert!(
                (d as f64 - ideal).abs() <= 1.0,
                "{}fps：第 {} 帧时长 {} 偏离理论值 {:.2}",
                fps,
                n,
                d,
                ideal
            );
            if !seen.contains(&d) {
                seen.push(d);
            }
        }
        assert!(
            seen.len() <= 2,
            "{}fps：帧时长出现了 {} 种取值（应只有 2 种）",
            fps,
            seen.len()
        );

        assert_eq!(
            slot_deadline_ns(fps as u64, fps),
            1_000_000_000,
            "{}fps：{} 个 deadline 不等于 1 秒",
            fps,
            fps
        );
        for n in [1u64, 7, 1000] {
            let ns = slot_deadline_ns(n, fps) as i64;
            let ticks = slot_time_mf(MfTime100ns(0), n, fps).0;
            assert!(
                (ns - ticks * 100).abs() <= 100,
                "{}fps：第 {} 槽 deadline({}ns) 与槽位时间({}tick) 不一致",
                fps,
                n,
                ns,
                ticks
            );
        }

        let n1h = slots_elapsed(MfTime100ns(3600 * MF_TICKS_PER_SEC), fps);
        assert_eq!(n1h, 3600 * fps as u64, "{}fps：1 小时槽位数不符", fps);
    }
}

#[test]
fn slots_abut_and_count_back() {
    for fps in [30u32, 60, 90, 7] {
        for n in 0..500u64 {
            let start = slot_time_mf(MfTime100ns(0), n, fps).0;
            let next = slot_time_mf(MfTime100ns(0), n + 1, fps).0;
            assert_eq!(start + slot_duration_mf(n, fps).0, next);
            assert!(slots_elapsed(MfTime100ns(start), fps) <= n);
            assert_eq!(slots_elapsed(MfTime100ns(start + 1), fps), n);
        }
    }
    // The start of the first frame shifts every slot.
    assert_eq!(slot_time_mf(MfTime100ns(123), 30, 30).0, 10_000_123);
    // Time before the start has no slots.
    assert_eq!(slots_elapsed(MfTime100ns(-5), 30), 0);
}

#[test]
fn timestamp_conversion_is_a_subtraction_not_a_scale() {
    let mut tl = Timeline::new(Srt100ns(1_000_000));
    let a = tl.to_mf(Srt100ns(1_000_000));
    assert_eq!(a.0, 0);
    let b = tl.to_mf(Srt100ns(1_333_333));
    assert_eq!(b.0, 333_333);
}

#[test]
fn timestamp_monotonic_clamp() {
    let mut tl = Timeline::new(Srt100ns(0));
    assert_eq!(tl.to_mf(Srt100ns(100)).0, 100);
    assert_eq!(tl.to_mf(Srt100ns(100)).0, 101);
    assert_eq!(tl.to_mf(Srt100ns(50)).0, 102);
    assert_eq!(tl.anomalies(), 2);
    assert_eq!(tl.to_mf(Srt100ns(200)).0, 200);
    assert_eq!(tl.anomalies(), 2);
}

#[test]
fn qpc_conversion_uses_frequency() {
    assert_eq!(srt_from_qpc(QpcTicks(12_345), 10_000_000).0, 12_345);
    let s = srt_from_qpc(QpcTicks(3_579_545), 3_579_545);
    assert_eq!(s.0, 10_000_000);
}

#[test]
fn timeline_limits() {
    let tl = Timeline::new(Srt100ns(-5));
    assert_eq!(tl.origin().0, -5);
    assert!(tl.can_convert(Srt100ns(0)));
    assert!(!tl.can_convert(Srt100ns(i64::MAX)));
    assert_eq!(tl.elapsed(Srt100ns(10)).0, 15);
    assert_eq!(tl.anomalies(), 0);
}
