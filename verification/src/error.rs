//! Error classification. Every error has a stable code and a readable message.

use crate::text::{decimal, push_decimal};
use vstd::prelude::*;

verus! {

/// The phase of the stop sequence that ran out of time.
#[derive(Debug, Clone, Copy, PartialEq, Eq, Structural)]
pub enum StopPhase {
    Drain,
    Flush,
    Finalize,
    Release,
    /// Waiting for the audio thread.
    AudioJoin,
    /// Waiting for the encoder thread, which drains, flushes and finalizes.
    EncoderJoin,
}

impl StopPhase {
    pub open spec fn label(self) -> Seq<char> {
        match self {
            StopPhase::Drain => "drain"@,
            StopPhase::Flush => "flush"@,
            StopPhase::Finalize => "finalize"@,
            StopPhase::Release => "release"@,
            StopPhase::AudioJoin => "audio-join"@,
            StopPhase::EncoderJoin => "encoder-join"@,
        }
    }

    pub fn as_str(self) -> (s: &'static str)
        ensures
            s@ == self.label(),
    {
        match self {
            StopPhase::Drain => "drain",
            StopPhase::Flush => "flush",
            StopPhase::Finalize => "finalize",
            StopPhase::Release => "release",
            StopPhase::AudioJoin => "audio-join",
            StopPhase::EncoderJoin => "encoder-join",
        }
    }
}

/// An error of the operating system: its result code and the text the system gives for it.
#[derive(Debug)]
pub struct OsError {
    pub code: i32,
    pub text: String,
}

impl OsError {
    /// A second copy of the error.
    pub fn duplicate(&self) -> (r: OsError)
        ensures
            r == *self,
    {
        OsError { code: self.code, text: self.text.clone() }
    }
}

/// Everything that can go wrong between choosing a display and a finished file.
#[derive(Debug)]
pub enum MediaError {
    ScreenCaptureUnsupported,
    CaptureFormatUnsupported { actual: String },
    HdrDisplayNotSupported,
    UnsupportedFrameRate { fps: u32, allowed: &'static [u32] },
    ResolutionExceedsLimit { width: u32, height: u32, max_width: u32, max_height: u32 },
    DisplayNotFound { display_id: String },
    FramePoolCreateFailed(OsError),
    CaptureSessionStartFailed(OsError),
    CaptureNoFrames(u64),
    CaptureStalled(u64),
    FrameConversionFailed { reason: String },
    EncoderEnumerationFailed(OsError),
    EncoderInitFailed { stage: &'static str, source: OsError },
    EncoderHardwareFallback { reason: String },
    OutputDirectoryNotWritable { path: String },
    InsufficientDiskSpace {
        free: u64,
        required: u64,
        free_human: String,
        required_human: String,
    },
    MuxerInitFailed(OsError),
    Mp4FinalizeFailed(OsError),
    StopTimeout { phase: StopPhase },
    Internal(String),
    Windows { context: &'static str, source: OsError },
}

pub type MediaResult<T> = Result<T, MediaError>;

/// The numbers of a list, separated by a comma and a space.
pub open spec fn joined(list: Seq<u32>) -> Seq<char>
    decreases list.len(),
{
    if list.len() == 0 {
        Seq::empty()
    } else if list.len() == 1 {
        decimal(list[0] as nat)
    } else {
        joined(list.drop_last()) + ", "@ + decimal(list.last() as nat)
    }
}

fn push_joined(out: &mut String, list: &[u32])
    ensures
        final(out)@ == old(out)@ + joined(list@),
{
    let mut i: usize = 0;
    assert(out@ == old(out)@ + joined(list@.take(0)));
    while i < list.len()
        invariant
            i <= list.len(),
            out@ == old(out)@ + joined(list@.take(i as int)),
        decreases list.len() - i,
    {
        let ghost before = out@;
        if i > 0 {
            out.append(", ");
        }
        push_decimal(out, list[i] as u64);
        proof {
            let upto = list@.take(i + 1);
            assert(upto.drop_last() == list@.take(i as int));
            if i > 0 {
                assert(out@ == before + ", "@ + decimal(list@[i as int] as nat));
                assert(out@ == old(out)@ + joined(upto));
            } else {
                assert(out@ == old(out)@ + joined(upto));
            }
        }
        i = i + 1;
    }
    assert(list@.take(list@.len() as int) == list@);
}

impl MediaError {
    /// The code of the error.
    pub open spec fn code_text(self) -> Seq<char> {
        match self {
            MediaError::ScreenCaptureUnsupported => "ScreenCaptureUnsupported"@,
            MediaError::CaptureFormatUnsupported { .. } => "CaptureFormatUnsupported"@,
            MediaError::HdrDisplayNotSupported => "HdrDisplayNotSupported"@,
            MediaError::UnsupportedFrameRate { .. } => "UnsupportedFrameRate"@,
            MediaError::ResolutionExceedsLimit { .. } => "ResolutionExceedsLimit"@,
            MediaError::DisplayNotFound { .. } => "DisplayNotFound"@,
            MediaError::FramePoolCreateFailed(_) => "FramePoolCreateFailed"@,
            MediaError::CaptureSessionStartFailed(_) => "CaptureSessionStartFailed"@,
            MediaError::CaptureNoFrames(_) => "CaptureNoFrames"@,
            MediaError::CaptureStalled(_) => "CaptureStalled"@,
            MediaError::FrameConversionFailed { .. } => "FrameConversionFailed"@,
            MediaError::EncoderEnumerationFailed(_) => "EncoderEnumerationFailed"@,
            MediaError::EncoderInitFailed { .. } => "EncoderInitFailed"@,
            MediaError::EncoderHardwareFallback { .. } => "EncoderHardwareFallback"@,
            MediaError::OutputDirectoryNotWritable { .. } => "OutputDirectoryNotWritable"@,
            MediaError::InsufficientDiskSpace { .. } => "InsufficientDiskSpace"@,
            MediaError::MuxerInitFailed(_) => "MuxerInitFailed"@,
            MediaError::Mp4FinalizeFailed(_) => "Mp4FinalizeFailed"@,
            MediaError::StopTimeout { .. } => "StopTimeout"@,
            MediaError::Internal(_) => "InternalPanic"@,
            MediaError::Windows { .. } => "Win32Error"@,
        }
    }

    /// Stable code, for the user interface and the log.
    pub fn code(&self) -> (s: &'static str)
        ensures
            s@ == self.code_text(),
    {
        match self {
            MediaError::ScreenCaptureUnsupported => "ScreenCaptureUnsupported",
            MediaError::CaptureFormatUnsupported { .. } => "CaptureFormatUnsupported",
            MediaError::HdrDisplayNotSupported => "HdrDisplayNotSupported",
            MediaError::UnsupportedFrameRate { .. } => "UnsupportedFrameRate",
            MediaError::ResolutionExceedsLimit { .. } => "ResolutionExceedsLimit",
            MediaError::DisplayNotFound { .. } => "DisplayNotFound",
            MediaError::FramePoolCreateFailed(_) => "FramePoolCreateFailed",
            MediaError::CaptureSessionStartFailed(_) => "CaptureSessionStartFailed",
            MediaError::CaptureNoFrames(_) => "CaptureNoFrames",
            MediaError::CaptureStalled(_) => "CaptureStalled",
            MediaError::FrameConversionFailed { .. } => "FrameConversionFailed",
            MediaError::EncoderEnumerationFailed(_) => "EncoderEnumerationFailed",
            MediaError::EncoderInitFailed { .. } => "EncoderInitFailed",
            MediaError::EncoderHardwareFallback { .. } => "EncoderHardwareFallback",
            MediaError::OutputDirectoryNotWritable { .. } => "OutputDirectoryNotWritable",
            MediaError::InsufficientDiskSpace { .. } => "InsufficientDiskSpace",
            MediaError::MuxerInitFailed(_) => "MuxerInitFailed",
            MediaError::Mp4FinalizeFailed(_) => "Mp4FinalizeFailed",
            MediaError::StopTimeout { .. } => "StopTimeout",
            MediaError::Internal(_) => "InternalPanic",
            MediaError::Windows { .. } => "Win32Error",
        }
    }

    pub fn win32(context: &'static str, source: OsError) -> (e: MediaError)
        ensures
            e == (MediaError::Windows { context, source }),
    {
        MediaError::Windows { context, source }
    }

    /// The text shown to the user.
    pub open spec fn message_text(self) -> Seq<char> {
        match self {
            MediaError::ScreenCaptureUnsupported =>
                "当前系统不支持屏幕捕获（GraphicsCaptureSession.IsSupported() == false）"@,
            MediaError::CaptureFormatUnsupported { actual } => "捕获帧格式不受支持：期望 BGRA8，实际 "@
                + actual@,
            MediaError::HdrDisplayNotSupported =>
                "目标显示器处于 HDR / 高级颜色模式，V0.1 暂不支持。请在显示设置中关闭 HDR 后重试"@,
            MediaError::UnsupportedFrameRate { fps, allowed } => "不支持的帧率："@ + decimal(fps as nat)
                + "（仅允许 ["@ + joined(allowed@) + "]）"@,
            MediaError::ResolutionExceedsLimit { width, height, max_width, max_height } =>
                "采集分辨率 "@ + decimal(width as nat) + "x"@ + decimal(height as nat) + " 超过上限 "@
                + decimal(max_width as nat) + "x"@ + decimal(max_height as nat),
            MediaError::DisplayNotFound { display_id } => "显示器不存在或已断开："@ + display_id@,
            MediaError::FramePoolCreateFailed(e) => "创建 WGC 帧池失败："@ + e.text@,
            MediaError::CaptureSessionStartFailed(e) => "启动捕获会话失败："@ + e.text@,
            MediaError::CaptureNoFrames(secs) => "开始采集后 "@ + decimal(secs as nat)
                + " 秒内没有收到任何帧"@,
            MediaError::CaptureStalled(secs) => "采集中断："@ + decimal(secs as nat) + " 秒没有帧回调"@,
            MediaError::FrameConversionFailed { reason } => "帧格式转换失败："@ + reason@,
            MediaError::EncoderEnumerationFailed(e) => "编码器枚举失败："@ + e.text@,
            MediaError::EncoderInitFailed { stage, source } => "编码器初始化失败（阶段："@ + stage@ + "）："@
                + source.text@,
            MediaError::EncoderHardwareFallback { reason } => "硬件编码不可用，已回退软件编码："@ + reason@,
            MediaError::OutputDirectoryNotWritable { path } => "输出目录不可写："@ + path@,
            MediaError::InsufficientDiskSpace { free_human, required_human, .. } =>
                "磁盘可用空间不足：可用 "@ + free_human@ + "，本次录制预计需要 "@ + required_human@,
            MediaError::MuxerInitFailed(e) => "封装初始化失败："@ + e.text@,
            MediaError::Mp4FinalizeFailed(e) => "MP4 finalize 失败："@ + e.text@,
            MediaError::StopTimeout { phase } => "停止流程超时（阶段："@ + phase.label() + "）"@,
            MediaError::Internal(text) => "媒体线程内部错误："@ + text@,
            MediaError::Windows { context, .. } => context@,
        }
    }

    pub fn message(&self) -> (s: String)
        ensures
            s@ == self.message_text(),
    {
        match self {
            MediaError::ScreenCaptureUnsupported => String::from_str(
                "当前系统不支持屏幕捕获（GraphicsCaptureSession.IsSupported() == false）",
            ),
            MediaError::CaptureFormatUnsupported { actual } => String::from_str(
                "捕获帧格式不受支持：期望 BGRA8，实际 ",
            ).concat(actual.as_str()),
            MediaError::HdrDisplayNotSupported => String::from_str(
                "目标显示器处于 HDR / 高级颜色模式，V0.1 暂不支持。请在显示设置中关闭 HDR 后重试",
            ),
            MediaError::UnsupportedFrameRate { fps, allowed } => {
                let mut s: String = String::from_str("不支持的帧率：");
                push_decimal(&mut s, *fps as u64);
                s.append("（仅允许 [");
                push_joined(&mut s, allowed);
                s.append("]）");
                s
            },
            MediaError::ResolutionExceedsLimit { width, height, max_width, max_height } => {
                let mut s: String = String::from_str("采集分辨率 ");
                push_decimal(&mut s, *width as u64);
                s.append("x");
                push_decimal(&mut s, *height as u64);
                s.append(" 超过上限 ");
                push_decimal(&mut s, *max_width as u64);
                s.append("x");
                push_decimal(&mut s, *max_height as u64);
                s
            },
            MediaError::DisplayNotFound { display_id } => String::from_str(
                "显示器不存在或已断开：",
            ).concat(display_id.as_str()),
            MediaError::FramePoolCreateFailed(e) => String::from_str(
                "创建 WGC 帧池失败：",
            ).concat(e.text.as_str()),
            MediaError::CaptureSessionStartFailed(e) => String::from_str(
                "启动捕获会话失败：",
            ).concat(e.text.as_str()),
            MediaError::CaptureNoFrames(secs) => {
                let mut s: String = String::from_str("开始采集后 ");
                push_decimal(&mut s, *secs);
                s.append(" 秒内没有收到任何帧");
                s
            },
            MediaError::CaptureStalled(secs) => {
                let mut s: String = String::from_str("采集中断：");
                push_decimal(&mut s, *secs);
                s.append(" 秒没有帧回调");
                s
            },
            MediaError::FrameConversionFailed { reason } => String::from_str(
                "帧格式转换失败：",
            ).concat(reason.as_str()),
            MediaError::EncoderEnumerationFailed(e) => String::from_str(
                "编码器枚举失败：",
            ).concat(e.text.as_str()),
            MediaError::EncoderInitFailed { stage, source } => String::from_str(
                "编码器初始化失败（阶段：",
            ).concat(stage).concat("）：").concat(source.text.as_str()),
            MediaError::EncoderHardwareFallback { reason } => String::from_str(
                "硬件编码不可用，已回退软件编码：",
            ).concat(reason.as_str()),
            MediaError::OutputDirectoryNotWritable { path } => String::from_str(
                "输出目录不可写：",
            ).concat(path.as_str()),
            MediaError::InsufficientDiskSpace { free_human, required_human, .. } =>
                String::from_str("磁盘可用空间不足：可用 ").concat(free_human.as_str()).concat(
                "，本次录制预计需要 ",
            ).concat(required_human.as_str()),
            MediaError::MuxerInitFailed(e) => String::from_str(
                "封装初始化失败：",
            ).concat(e.text.as_str()),
            MediaError::Mp4FinalizeFailed(e) => String::from_str(
                "MP4 finalize 失败：",
            ).concat(e.text.as_str()),
            MediaError::StopTimeout { phase } => String::from_str(
                "停止流程超时（阶段：",
            ).concat(phase.as_str()).concat("）"),
            MediaError::Internal(text) => String::from_str(
                "媒体线程内部错误：",
            ).concat(text.as_str()),
            MediaError::Windows { context, .. } => String::from_str(context),
        }
    }
}

/// The place of an error's kind in the list of kinds.
pub open spec fn kind_number(e: MediaError) -> u8 {
    match e {
        MediaError::ScreenCaptureUnsupported => 0,
        MediaError::CaptureFormatUnsupported { .. } => 1,
        MediaError::HdrDisplayNotSupported => 2,
        MediaError::UnsupportedFrameRate { .. } => 3,
        MediaError::ResolutionExceedsLimit { .. } => 4,
        MediaError::DisplayNotFound { .. } => 5,
        MediaError::FramePoolCreateFailed(_) => 6,
        MediaError::CaptureSessionStartFailed(_) => 7,
        MediaError::CaptureNoFrames(_) => 8,
        MediaError::CaptureStalled(_) => 9,
        MediaError::FrameConversionFailed { .. } => 10,
        MediaError::EncoderEnumerationFailed(_) => 11,
        MediaError::EncoderInitFailed { .. } => 12,
        MediaError::EncoderHardwareFallback { .. } => 13,
        MediaError::OutputDirectoryNotWritable { .. } => 14,
        MediaError::InsufficientDiskSpace { .. } => 15,
        MediaError::MuxerInitFailed(_) => 16,
        MediaError::Mp4FinalizeFailed(_) => 17,
        MediaError::StopTimeout { .. } => 18,
        MediaError::Internal(_) => 19,
        MediaError::Windows { .. } => 20,
    }
}

/// A code stands for one kind of error: errors of different kinds never share a code.
pub proof fn law_codes_tell_errors_apart(a: MediaError, b: MediaError)
    requires
        a.code_text() == b.code_text(),
    ensures
        kind_number(a) == kind_number(b),
{
    lemma_code_marks(a);
    lemma_code_marks(b);
}

/// Length and sixth character of a code tell all codes apart.
proof fn lemma_code_marks(e: MediaError)
    ensures
        (e.code_text().len(), e.code_text()[5]) == (match kind_number(e) {
            0 => (24nat, 'n'),
            1 => (24nat, 'r'),
            2 => (22nat, 's'),
            3 => (20nat, 'p'),
            4 => (22nat, 'u'),
            5 => (15nat, 'a'),
            6 => (21nat, 'P'),
            7 => (25nat, 'r'),
            8 => (15nat, 'r'),
            9 => (14nat, 'r'),
            10 => (21nat, 'C'),
            11 => (24nat, 'e'),
            12 => (17nat, 'e'),
            13 => (23nat, 'e'),
            14 => (26nat, 't'),
            15 => (21nat, 'f'),
            16 => (15nat, 'I'),
            17 => (17nat, 'n'),
            18 => (11nat, 'i'),
            19 => (13nat, 'n'),
            _ => (10nat, 'E'),
        }),
{
    reveal_strlit("ScreenCaptureUnsupported");
    reveal_strlit("CaptureFormatUnsupported");
    reveal_strlit("HdrDisplayNotSupported");
    reveal_strlit("UnsupportedFrameRate");
    reveal_strlit("ResolutionExceedsLimit");
    reveal_strlit("DisplayNotFound");
    reveal_strlit("FramePoolCreateFailed");
    reveal_strlit("CaptureSessionStartFailed");
    reveal_strlit("CaptureNoFrames");
    reveal_strlit("CaptureStalled");
    reveal_strlit("FrameConversionFailed");
    reveal_strlit("EncoderEnumerationFailed");
    reveal_strlit("EncoderInitFailed");
    reveal_strlit("EncoderHardwareFallback");
    reveal_strlit("OutputDirectoryNotWritable");
    reveal_strlit("InsufficientDiskSpace");
    reveal_strlit("MuxerInitFailed");
    reveal_strlit("Mp4FinalizeFailed");
    reveal_strlit("StopTimeout");
    reveal_strlit("InternalPanic");
    reveal_strlit("Win32Error");
}

/// Shorthand for an internal error with a fixed text.
pub(crate) fn internal(text: &str) -> (e: MediaError)
    ensures
        e matches MediaError::Internal(t) && t@ == text@,
{
    MediaError::Internal(String::from_str(text))
}

/// A message ends with the reason that the error carries.
pub proof fn law_messages_end_with_the_reason(e: MediaError, reason: Seq<char>)
    requires
        match e {
            MediaError::CaptureFormatUnsupported { actual } => reason == actual@,
            MediaError::DisplayNotFound { display_id } => reason == display_id@,
            MediaError::FramePoolCreateFailed(s) => reason == s.text@,
            MediaError::CaptureSessionStartFailed(s) => reason == s.text@,
            MediaError::FrameConversionFailed { reason: why } => reason == why@,
            MediaError::EncoderEnumerationFailed(s) => reason == s.text@,
            MediaError::EncoderInitFailed { source, .. } => reason == source.text@,
            MediaError::EncoderHardwareFallback { reason: why } => reason == why@,
            MediaError::OutputDirectoryNotWritable { path } => reason == path@,
            MediaError::InsufficientDiskSpace { required_human, .. } => reason == required_human@,
            MediaError::MuxerInitFailed(s) => reason == s.text@,
            MediaError::Mp4FinalizeFailed(s) => reason == s.text@,
            MediaError::Internal(text) => reason == text@,
            MediaError::Windows { context, .. } => reason == context@,
            _ => false,
        },
    ensures
        e.message_text().len() >= reason.len(),
        e.message_text().skip(e.message_text().len() - reason.len()) == reason,
{
    assert(e.message_text().skip(e.message_text().len() - reason.len()) =~= reason);
}

/// A size that is refused is told with its width first, and so is the limit.
pub proof fn law_sizes_are_told_width_first(
    width: u32,
    height: u32,
    max_width: u32,
    max_height: u32,
)
    ensures
        ({
            let text = (MediaError::ResolutionExceedsLimit {
                width,
                height,
                max_width,
                max_height,
            }).message_text();
            let end = decimal(max_width as nat) + "x"@ + decimal(max_height as nat);
            let size = decimal(width as nat) + "x"@ + decimal(height as nat);
            &&& text.len() >= end.len()
            &&& text.skip(text.len() - end.len()) == end
            &&& text.subrange(6, 6 + size.len() as int) == size
        }),
{
    reveal_strlit("采集分辨率 ");
    let text = (MediaError::ResolutionExceedsLimit {
        width,
        height,
        max_width,
        max_height,
    }).message_text();
    let end = decimal(max_width as nat) + "x"@ + decimal(max_height as nat);
    let size = decimal(width as nat) + "x"@ + decimal(height as nat);
    assert(text.skip(text.len() - end.len()) =~= end);
    assert(text.subrange(6, 6 + size.len() as int) =~= size);
}

/// One more number stands behind the others, with a comma between.
pub proof fn law_numbers_are_joined_in_order(list: Seq<u32>, n: u32)
    ensures
        list.len() == 0 ==> joined(list.push(n)) == decimal(n as nat),
        list.len() > 0 ==> joined(list.push(n)) == joined(list) + ", "@ + decimal(n as nat),
{
    assert(list.push(n).drop_last() =~= list);
}

} // verus!
