//! The desktop shell: commands, settings, the frame, closing and the command line.

use screenlite::audio::gain::Gain;
use screenlite::audio::source::AudioSourceKind;
use screenlite::audio::AudioSourceSpec;
use screenlite::capture::display::DisplayInfo;
use screenlite::capture::windows::RawWindow;
use screenlite::consts::STOP_TOTAL_TIMEOUT_MS;
use screenlite::convert::Region;
use screenlite::encoder::HardwarePreference;
use screenlite::engine::{EngineState, Recorder, RecordingStatus};
use screenlite::error::MediaError;
use screenlite::shell::cli::{
    choose_display, frame_mismatch, length_error, parse_region, start_of, Options, Start, Tally,
};
use screenlite::share::Share;
use screenlite::shell::commands::{
    cancel_region, confirm_region, error_report, list_windows, open_region_selector,
    recording_running, settings_applied, start_recording, stop_recording, AppState,
    AudioSourceInput, Delivery, QuitGate, QuitWait, StartRequest, UiCommand, QUIT_BUDGET_MS,
};
use screenlite::shell::frame::{
    enforce_frameless_style, filter_place, is_framed, shadow_gutter, without_drop_shadow,
    FilterPlace, FrameGuard, GutterEvent, StyleFilter,
};
use screenlite::shell::poller::{ProgressPoller, READY_DEADLINE_NS, STALE_COMMAND_NS};
use screenlite::shell::settings::{
    aside_extension, default_hotkey, equal_settings, load_settings, settings_text, AppSettings,
    AudioSourcePref, SettingsFile,
};
use screenlite::shell::window::{
    close_action, display_affinity, hotkey_action, hotkey_result, tray_action, wanted_hotkey,
    CloseAction, HotkeyAction, TrayAction,
};

fn gain(g: f32) -> Gain {
    Gain(g.to_bits())
}

fn number(g: Gain) -> f32 {
    f32::from_bits(g.0)
}

#[test]
fn shadow_gutter_separates_real_measurements() {
    assert_eq!(shadow_gutter((562, 553), (540, 540)), Some((22, 13)));
    assert_eq!(shadow_gutter((540, 540), (540, 540)), None);
    assert_eq!(shadow_gutter((541, 541), (540, 540)), None);
    assert_eq!(shadow_gutter((542, 541), (540, 540)), None);
    assert_eq!(shadow_gutter((544, 540), (540, 540)), Some((4, 0)));
}

#[test]
fn overlay_close_must_not_quit_the_app() {
    assert_eq!(
        close_action("region-overlay", false),
        CloseAction::PassThrough,
        "空闲时关闭覆盖层 → 必须只关覆盖层，不能退出 App（这是实测过的 bug）"
    );
    assert_eq!(
        close_action("region-overlay", true),
        CloseAction::PassThrough,
        "录制中关闭覆盖层 → 同样放行（录制要继续）"
    );
    assert_eq!(close_action("some-future-window", false), CloseAction::PassThrough);
}

#[test]
fn main_window_close_still_finalizes_before_exit() {
    assert_eq!(close_action("main", true), CloseAction::StopThenExit);
    assert_eq!(close_action("main", false), CloseAction::ExitNow);
}

#[test]
fn ipc_ui_command_queue_dedupes_and_takes_atomically() {
    let mut state: AppState<()> = AppState::default();

    assert!(state.take_ui_command().is_none(), "初始应无待执行命令");

    assert!(state.push_ui_command(UiCommand::Toggle), "首次入队应成功");
    assert_eq!(state.take_ui_command(), Some(UiCommand::Toggle));
    assert!(state.take_ui_command().is_none(), "取走后必须为空");

    assert!(state.push_ui_command(UiCommand::Toggle));
    assert!(
        !state.push_ui_command(UiCommand::Toggle),
        "连按热键必须被折叠，不能排成两条 toggle"
    );
    assert_eq!(state.take_ui_command(), Some(UiCommand::Toggle));
    assert!(state.take_ui_command().is_none());

    assert!(state.push_ui_command(UiCommand::Toggle));
    assert!(state.push_ui_command(UiCommand::OpenDir));
    assert!(state.push_ui_command(UiCommand::Toggle));
    assert_eq!(state.take_ui_command(), Some(UiCommand::Toggle));
    assert_eq!(state.take_ui_command(), Some(UiCommand::OpenDir));
    assert_eq!(state.take_ui_command(), Some(UiCommand::Toggle));
    assert!(state.take_ui_command().is_none());
}

#[test]
fn ipc_ui_ready_returns_command_queued_before_page_ready() {
    let mut state: AppState<()> = AppState::default();
    assert!(!state.ui_ready(), "刚启动时前端尚未就绪");

    assert!(state.push_ui_command(UiCommand::Toggle));
    let _ = state.push_ui_command(UiCommand::Toggle);

    assert!(state.mark_ui_ready());
    let peeked = state.peek_ui_command();
    assert_eq!(
        peeked.map(|c| c.as_str()),
        Some("toggle"),
        "握手必须能看到启动窗口内攒下的命令"
    );
    assert!(state.ui_ready(), "握手后应标记为已就绪");

    let taken = state.take_ui_command();
    assert_eq!(
        taken.map(|c| c.as_str()),
        Some("toggle"),
        "握手不得消费命令，消费权只归 take_ui_command"
    );
    assert_eq!(state.take_ui_command(), None, "命令只能被取走一次");
    assert!(!state.mark_ui_ready());
}

#[test]
fn ipc_quit_gate_times_out_and_signals_once() {
    let mut gate = QuitGate::default();

    assert!(gate.mark_requested(), "第一次发起退出应为 true");
    assert!(!gate.mark_requested(), "重复发起必须为 false（否则会 spawn 第二个等待线程）");

    let ms = 1_000_000u64;
    assert_eq!(gate.wait(0, 120 * ms), QuitWait::Waiting);
    assert_eq!(gate.wait(100 * ms, 120 * ms), QuitWait::Waiting, "应是等满超时才返回");
    assert_eq!(gate.wait(120 * ms, 120 * ms), QuitWait::TimedOut, "无回声时应超时返回 false");

    gate.signal();
    assert_eq!(gate.wait(0, 5_000 * ms), QuitWait::Confirmed, "回声后应立刻返回 true");
    gate.signal();
    assert_eq!(gate.wait(0, 5_000 * ms), QuitWait::Confirmed, "重复回声必须幂等");
}

#[test]
fn an_answer_at_the_last_moment_counts() {
    let mut gate = QuitGate::default();
    gate.signal();
    assert_eq!(gate.wait(9, 5), QuitWait::Confirmed);
    assert!(QUIT_BUDGET_MS > STOP_TOTAL_TIMEOUT_MS);
    assert_eq!(QUIT_BUDGET_MS, 25_000);
}

#[test]
fn quitting_is_asked_for_once() {
    let mut state: AppState<u8> = AppState::default();
    assert_eq!(
        state.begin_quit(),
        Some(Delivery { queued: true, wake: false }),
        "页面未就绪时只入队"
    );
    assert_eq!(state.begin_quit(), None);
    assert_eq!(state.take_ui_command(), Some(UiCommand::Quit));
    assert_eq!(state.take_ui_command(), None);
    state.mark_ui_ready();
    assert_eq!(state.deliver(UiCommand::OpenDir), Delivery { queued: true, wake: true });
    assert_eq!(state.deliver(UiCommand::OpenDir), Delivery { queued: false, wake: true });
}

#[test]
fn menu_entries_and_hot_keys() {
    assert_eq!(tray_action("toggle"), Some(TrayAction::Command(UiCommand::Toggle)));
    assert_eq!(tray_action("open-dir"), Some(TrayAction::Command(UiCommand::OpenDir)));
    assert_eq!(tray_action("show"), Some(TrayAction::ShowWindow));
    assert_eq!(tray_action("quit"), Some(TrayAction::Quit));
    assert_eq!(tray_action("Quit"), None);

    assert_eq!(hotkey_action(false, false, true, Some(true)), HotkeyAction::Nothing);
    assert_eq!(hotkey_action(true, false, false, None), HotkeyAction::Toggle);
    assert_eq!(hotkey_action(true, true, true, Some(true)), HotkeyAction::HideWindow);
    assert_eq!(hotkey_action(true, true, true, Some(false)), HotkeyAction::ShowWindow);
    assert_eq!(hotkey_action(true, true, true, None), HotkeyAction::ShowWindow);
    assert_eq!(hotkey_action(true, true, false, None), HotkeyAction::Nothing);

    assert_eq!(wanted_hotkey(Some("  Ctrl+F1 ")), Some("Ctrl+F1".to_string()));
    assert_eq!(wanted_hotkey(Some(" \t ")), None);
    assert_eq!(wanted_hotkey(None), None);
    assert_eq!(hotkey_result(Ok(()), Some("F1"), Ok(())), Ok(()));
    assert_eq!(hotkey_result(Ok(()), None, Err("x".into())), Ok(()));
    assert_eq!(
        hotkey_result(Ok(()), Some("F1"), Err("占用".into())),
        Err("「F1」注册失败：占用（可能已被其它程序占用）".to_string())
    );
    assert_eq!(
        hotkey_result(Err("坏".into()), Some("F1"), Ok(())),
        Err("注销旧快捷键失败：坏".to_string())
    );
    assert_eq!((display_affinity(true), display_affinity(false)), (0, 0x11));
}

#[test]
fn no_written_style_brings_the_caption_back() {
    // Caption, system menu, both boxes, clipped siblings, visible.
    let born = 0x14cb_0000u32;
    let mut filter = StyleFilter::new();
    let filtered = filter.style_changing(born).unwrap();
    assert_eq!(filtered, 0x9400_0000);
    assert!(!is_framed(filtered));
    assert!(is_framed(born));
    assert_eq!(filter.blocked, 1);
    assert_eq!(filter.style_changing(filtered), None);
    assert_eq!(filter.blocked, 1);
    assert_eq!(enforce_frameless_style(filtered), None);
    assert_eq!(enforce_frameless_style(0), Some(0x8000_0000));
    assert_eq!(without_drop_shadow(0x0002_0003), Some(3));
    assert_eq!(without_drop_shadow(3), None);
    assert_eq!(filter_place(0, 5), FilterPlace::Unknown);
    assert_eq!(filter_place(5, 5), FilterPlace::Installed);
    assert_eq!(filter_place(6, 5), FilterPlace::Missing);
}

#[test]
fn the_guard_speaks_only_of_changes() {
    let mut guard = FrameGuard::new();
    assert_eq!(guard.gutter(None), GutterEvent::Nothing);
    assert_eq!(guard.gutter(Some((22, 13))), GutterEvent::Appeared(22, 13));
    assert_eq!(guard.gutter(Some((22, 13))), GutterEvent::Nothing);
    assert_eq!(guard.gutter(None), GutterEvent::Gone);
    assert!(guard.looked());
    let traces = (2..=800).filter(|_| guard.looked()).count();
    assert_eq!(traces, 2);
}

fn request(dir: &str) -> StartRequest {
    StartRequest {
        display_id: "d".into(),
        fps: 60,
        output_dir: dir.into(),
        region: Some(Region { x: 1, y: 2, width: 4, height: 6 }),
        prefer_software: true,
        audio_sources: None,
        audio_kind: Some("microphone".into()),
    }
}

#[test]
fn requests_become_configurations() {
    let mut state: AppState<u8> = AppState::default();
    let cfg = start_recording(&state, request("C:\\out"), Err(MediaError::HdrDisplayNotSupported))
        .unwrap();
    assert_eq!(cfg.display_id, "d");
    assert_eq!(cfg.output_dir, "C:\\out");
    assert_eq!(cfg.fps, 60);
    assert_eq!(cfg.hardware, HardwarePreference::PreferSoftware);
    assert_eq!(cfg.region, Some(Region { x: 1, y: 2, width: 4, height: 6 }));
    assert_eq!(
        cfg.audio_sources,
        vec![AudioSourceSpec { kind: AudioSourceKind::Microphone, gain: gain(1.0) }]
    );
    assert_eq!(cfg.max_duration_secs, 7_200);

    let mut two = request("  ");
    two.prefer_software = false;
    two.audio_sources = Some(vec![
        AudioSourceInput { kind: "system".into(), gain: gain(0.5) },
        AudioSourceInput { kind: "microphone".into(), gain: gain(7.0) },
        AudioSourceInput { kind: "whatever".into(), gain: gain(f32::NAN) },
    ]);
    let cfg = start_recording(&state, two, Ok("V:\\ScreenLite".into())).unwrap();
    assert_eq!(cfg.output_dir, "V:\\ScreenLite");
    assert_eq!(cfg.hardware, HardwarePreference::PreferHardware);
    let kinds: Vec<_> = cfg.audio_sources.iter().map(|s| (s.kind, number(s.gain))).collect();
    assert_eq!(
        kinds,
        vec![
            (AudioSourceKind::SystemLoopback, 0.5),
            (AudioSourceKind::Microphone, 2.0),
            (AudioSourceKind::SystemLoopback, 1.0),
        ]
    );

    let mut silent = request("C:\\out");
    silent.audio_sources = Some(vec![]);
    assert_eq!(
        start_recording(&state, silent, Ok("x".into())).unwrap_err(),
        "至少选择一路音频来源（系统声音 / 麦克风）——不做\"静音录制\"模糊态"
    );
    let none = MediaError::Internal("没有".into());
    let report = error_report(&none);
    assert_eq!(report, "[InternalPanic] 媒体线程内部错误：没有");
    assert_eq!(
        start_recording(&state, request(""), Err(none)).unwrap_err(),
        format!("解析默认输出目录失败：{}", report)
    );

    assert!(!state.is_recording());
    assert!(recording_running(&mut state, 7).accepted);
    assert!(state.is_recording());
    assert_eq!(
        start_recording(&state, request("C:\\out"), Ok("x".into())).unwrap_err(),
        "已有录制在进行中"
    );
    assert_eq!(stop_recording(&mut state), Ok(7));
    assert!(!state.is_recording());
    assert_eq!(stop_recording(&mut state), Err("当前没有录制在进行".to_string()));
}

fn display(hdr: bool) -> DisplayInfo {
    DisplayInfo {
        id: "d".into(),
        device_name: "\\\\.\\DISPLAY1".into(),
        friendly_name: "Main".into(),
        width: 1707,
        height: 1067,
        x: 0,
        y: 0,
        primary: true,
        hdr,
    }
}

#[test]
fn a_selection_from_opening_to_its_end() {
    let mut state: AppState<u8> = AppState::default();
    let sh = |v: f64| Share(v.to_bits());
    assert_eq!(
        confirm_region(&mut state, sh(0.0), sh(0.0), sh(1.0), sh(1.0)),
        Err("框选会话不存在（可能已取消）".to_string())
    );
    assert_eq!(list_windows(&state, &Vec::new()).unwrap_err(), "框选会话不存在");

    let e = open_region_selector("d".into(), Ok(display(true)), Ok((2560, 1600))).unwrap_err();
    assert_eq!(e, "目标显示器处于 HDR 模式，V0.1 暂不支持");
    let gone = MediaError::DisplayNotFound { display_id: "d".into() };
    let e = open_region_selector("d".into(), Err(gone), Ok((2560, 1600))).unwrap_err();
    assert_eq!(e, "[DisplayNotFound] 显示器不存在或已断开：d");
    let none = MediaError::ScreenCaptureUnsupported;
    let e = open_region_selector("d".into(), Ok(display(false)), Err(none)).unwrap_err();
    assert!(e.starts_with("[ScreenCaptureUnsupported] "));

    let ctx = open_region_selector("d".into(), Ok(display(false)), Ok((2560, 1600))).unwrap();
    assert_eq!((ctx.phys_w, ctx.phys_h, ctx.logical_w, ctx.logical_h), (2560, 1600, 1707, 1067));
    state.selector = Some(ctx);
    let raw = vec![
        RawWindow { title: "a".into(), x: -10, y: 5, w: 100, h: 100 },
        RawWindow { title: "b".into(), x: 2600, y: 5, w: 100, h: 100 },
    ];
    let boxes = list_windows(&state, &raw).unwrap();
    assert_eq!(boxes.len(), 1);
    assert_eq!((boxes[0].left, boxes[0].top, boxes[0].right, boxes[0].bottom), (0, 5, 90, 105));

    assert_eq!(
        confirm_region(&mut state, sh(0.5), sh(0.5), sh(0.5003), sh(0.75)),
        Err("选区过小或完全在画幅外".to_string())
    );
    assert!(state.selector.is_some());
    assert_eq!(
        confirm_region(&mut state, sh(-3.0), sh(0.0), sh(7.5), sh(1.0)),
        Ok(Region { x: 0, y: 0, width: 2560, height: 1600 })
    );
    assert!(state.selector.is_none());
    let ctx = open_region_selector("d".into(), Ok(display(false)), Ok((2, 2))).unwrap();
    state.selector = Some(ctx);
    cancel_region(&mut state);
    assert!(state.selector.is_none());
}

#[test]
fn defaults_match_current_behavior() {
    let d = AppSettings::default();
    assert_eq!(d.audio_sources.len(), 1);
    assert_eq!(d.audio_sources[0].kind, "system");
    assert_eq!(number(d.audio_sources[0].gain), 1.0);
    assert_eq!(d.hotkey.as_deref(), Some("Ctrl+Alt+R"));
}

#[test]
fn normalization_cleans_impossible_values() {
    let s = AppSettings {
        audio_sources: vec![
            AudioSourcePref { kind: "SPEAKER".into(), gain: gain(1.0) },
            AudioSourcePref { kind: " microphone ".into(), gain: gain(99.0) },
            AudioSourcePref { kind: "microphone".into(), gain: gain(1.0) },
        ],
        hotkey: Some("   ".into()),
        capture_visible: false,
    }
    .normalized();
    assert_eq!(s.audio_sources.len(), 1, "未知与重复都要被清掉");
    assert_eq!(s.audio_sources[0].kind, "microphone");
    assert!(number(s.audio_sources[0].gain) <= 2.0, "增益必须被收敛");
    assert_eq!(s.hotkey, None, "空白快捷键等于停用");
}

#[test]
fn empty_audio_list_falls_back_to_system() {
    let s = AppSettings { audio_sources: vec![], hotkey: None, capture_visible: false }.normalized();
    assert_eq!(s.audio_sources.len(), 1);
    assert_eq!(s.audio_sources[0].kind, "system", "空列表必须回到默认单路，否则等于静音录制");
}

#[test]
fn missing_file_yields_defaults_not_error() {
    let l = load_settings(SettingsFile::Missing);
    assert!(equal_settings(&l.settings, &AppSettings::default()));
    assert!(!l.put_aside && !l.corrected);
}

#[test]
fn broken_file_yields_defaults_not_error() {
    let l = load_settings(SettingsFile::Damaged);
    assert!(equal_settings(&l.settings, &AppSettings::default()));
    assert!(l.put_aside, "解析失败的文件应被改名备份，而不是原样留着");
    assert_eq!(aside_extension(1_700_000_000), "bad-1700000000");
}

#[test]
fn utf8_bom_is_tolerated() {
    let json = "{\"audio_sources\":[{\"kind\":\"microphone\",\"gain\":1.5}],\"hotkey\":null}";
    assert_eq!(settings_text(&format!("\u{feff}{}", json)), json);
    assert_eq!(settings_text(&format!("\u{feff}\u{feff}{}", json)), json);
    assert_eq!(settings_text(json), json);
    let value: serde_json::Value =
        serde_json::from_str(&settings_text(&format!("\u{feff}{}", json))).unwrap();
    assert_eq!(value["audio_sources"][0]["kind"], "microphone");
}

#[test]
fn roundtrip_keeps_two_sources_and_disabled_hotkey() {
    let s = AppSettings {
        audio_sources: vec![
            AudioSourcePref { kind: "system".into(), gain: gain(0.5) },
            AudioSourcePref { kind: "microphone".into(), gain: gain(1.7) },
        ],
        hotkey: None,
        capture_visible: false,
    };
    let back = load_settings(SettingsFile::Read(s));
    assert!(!back.corrected);
    let back = back.settings;
    assert_eq!(back.audio_sources.len(), 2, "两路必须原样读回");
    assert_eq!(back.audio_sources[1].kind, "microphone");
    assert!((number(back.audio_sources[1].gain) - 1.7).abs() < 1e-6);
    assert_eq!(back.hotkey, None, "停用状态必须保持（不能被默认值顶回 Ctrl+Alt+R）");
}

#[test]
fn proper_settings_stay_as_they_are() {
    let once = AppSettings {
        audio_sources: vec![
            AudioSourcePref { kind: "\u{3000}SYSTEM".into(), gain: gain(-3.0) },
            AudioSourcePref { kind: "Microphone".into(), gain: gain(0.25) },
        ],
        hotkey: Some(" Ctrl+F9 ".into()),
        capture_visible: true,
    }
    .normalized();
    assert_eq!(once.audio_sources[0].kind, "system");
    assert_eq!(number(once.audio_sources[0].gain), 0.0);
    assert_eq!(once.hotkey.as_deref(), Some("Ctrl+F9"));
    assert!(once.capture_visible);
    let l = load_settings(SettingsFile::Read(once));
    assert!(!l.corrected);
    let odd = AppSettings {
        audio_sources: vec![AudioSourcePref { kind: "system".into(), gain: gain(f32::NAN) }],
        hotkey: default_hotkey(),
        capture_visible: false,
    };
    assert!(load_settings(SettingsFile::Read(odd)).corrected);
}

#[test]
fn saving_and_hot_key_are_reported_apart() {
    let a = settings_applied(Ok(()), Err("占用".into())).unwrap();
    assert!(a.saved);
    assert_eq!(a.hotkey_error.as_deref(), Some("占用"));
    assert_eq!(settings_applied(Ok(()), Ok(())).unwrap().hotkey_error, None);
    assert_eq!(settings_applied(Err("满".into()), Ok(())).unwrap_err(), "满");
}

fn status_of(r: &Recorder) -> Option<RecordingStatus> {
    Some(r.status())
}

#[test]
fn the_poller_sends_changes_once() {
    let mut poller = ProgressPoller::new();
    let mut r = Recorder::new();
    r.metrics.frames_captured = 9;
    let (changed, progress) = poller.watch_recording(status_of(&r)).unwrap();
    assert_eq!(changed.unwrap().state, EngineState::Preparing);
    assert_eq!(progress.frames_captured, 9);
    assert!(!progress.queue_degraded);
    assert!(poller.watch_recording(status_of(&r)).unwrap().0.is_none());
    let e = MediaError::HdrDisplayNotSupported;
    r.ended(Some(&e));
    let p = poller.watch_recording(status_of(&r)).unwrap().0.unwrap();
    assert_eq!(p.state, EngineState::Error);
    assert_eq!(p.error_code.as_deref(), Some("InternalPanic"));
    assert!(p.error_message.unwrap().contains("[HdrDisplayNotSupported]"));
    assert!(poller.watch_recording(None).is_none());
    assert!(poller.watch_recording(status_of(&r)).unwrap().0.is_some());
}

#[test]
fn the_poller_notices_a_silent_interface() {
    let mut poller = ProgressPoller::new();
    let cmd = Some(UiCommand::Toggle);
    assert!(!poller.watch_interface(false, None, READY_DEADLINE_NS - 1).missing);
    assert!(poller.watch_interface(false, None, READY_DEADLINE_NS).missing);
    assert!(!poller.watch_interface(false, None, READY_DEADLINE_NS + 1).missing);
    assert!(poller.watch_interface(true, None, READY_DEADLINE_NS + 2).late);
    assert!(!poller.watch_interface(true, None, READY_DEADLINE_NS + 3).late);

    let t = READY_DEADLINE_NS + 10;
    assert_eq!(poller.watch_interface(true, cmd, t).stale, cmd);
    assert_eq!(poller.watch_interface(true, cmd, t + STALE_COMMAND_NS - 1).stale, None);
    assert_eq!(poller.watch_interface(true, cmd, t + STALE_COMMAND_NS).stale, cmd);
    assert_eq!(poller.watch_interface(true, None, t + STALE_COMMAND_NS + 1).stale, None);
    assert_eq!(poller.watch_interface(true, cmd, t + STALE_COMMAND_NS + 2).stale, cmd);
}

fn parse(args: &[&str]) -> Options {
    Options::parse(&args.iter().map(|s| s.to_string()).collect())
}

#[test]
fn command_line_options() {
    let o = parse(&[]);
    assert_eq!((o.seconds, o.software, o.repeat, o.fps, o.audio), (5, false, 1, 30, true));
    assert_eq!(o.dir, None);
    let o = parse(&[
        "12", "--software", "--dir", "out", "--repeat", "0", "--fps", "60", "--max-secs", "+9",
        "--region", " 1, 2,3 ,4", "--no-audio", "--mic", "--list-audio", "rubbish",
    ]);
    assert_eq!(o.seconds, 12);
    assert!(o.software && !o.audio && o.list_audio);
    assert_eq!(o.dir.as_deref(), Some("out"));
    assert_eq!(o.repeat, 1);
    assert_eq!(o.fps, 60);
    assert_eq!(o.max_secs, Some(9));
    assert_eq!(o.region, Some(Region { x: 1, y: 2, width: 3, height: 4 }));
    assert_eq!(o.audio_kind, AudioSourceKind::Microphone);

    let o = parse(&["--fps", "x", "--fps", "-1", "--region", "1,2,3", "--repeat", "3", "--dir"]);
    assert_eq!(o.fps, 30);
    assert_eq!(o.region, None);
    assert_eq!(o.bad_regions, vec!["1,2,3".to_string()]);
    assert_eq!(o.repeat, 3);
    assert_eq!(o.dir, None);

    let cfg = parse(&["--max-secs", "7", "--mic"]).round_config("d".into(), "out".into());
    assert_eq!(cfg.max_duration_secs, 7);
    assert_eq!(cfg.audio_sources[0].kind, AudioSourceKind::Microphone);
    assert!(parse(&["15"]).prints_progress(59_999));
    assert!(parse(&["16"]).prints_progress(61_099));
    assert!(!parse(&["16"]).prints_progress(61_100));
    assert!(parse(&["16"]).prints_progress(-1));
    assert!(parse(&["16"]).prints_progress(-61_100));
}

#[test]
fn rectangles_on_the_command_line() {
    assert_eq!(parse_region("1,2,3,4"), Some(Region { x: 1, y: 2, width: 3, height: 4 }));
    assert_eq!(parse_region("1,x,2,3,4"), Some(Region { x: 1, y: 2, width: 3, height: 4 }));
    assert_eq!(parse_region("1,2,3,4,5"), None);
    assert_eq!(parse_region(""), None);
    assert_eq!(parse_region("1,2,3,4294967296"), None);
}

#[test]
fn rounds_of_a_stability_run() {
    assert_eq!(start_of(EngineState::Recording), Start::Running);
    assert_eq!(start_of(EngineState::Error), Start::Failed);
    assert_eq!(start_of(EngineState::Preparing), Start::Waiting);
    let mut tally = Tally::new();
    assert_eq!(tally.exit_code(), 0);
    assert!(tally.never_began());
    assert!(!tally.never_began());
    tally.failed();
    assert_eq!((tally.failures, tally.exit_code()), (2, 2));
    assert_eq!(frame_mismatch(300, 4, 293), None);
    assert_eq!(frame_mismatch(300, 4, 292), Some(296));
    assert_eq!(frame_mismatch(300, 0, 304), Some(300));
    assert_eq!(length_error(-5, 10), 15);
    assert_eq!(length_error(i64::MAX, i64::MIN), u64::MAX);
    assert_eq!(choose_display(&Vec::new()), None);
    let mut second = display(false);
    second.primary = false;
    assert_eq!(choose_display(&vec![second]), Some(0));
    let mut first = display(false);
    first.primary = false;
    assert_eq!(choose_display(&vec![first, display(false)]), Some(1));
}
