//! What is known about the encoders of a machine. Nothing is claimed that was not found: what
//! was not enumerated is unavailable, what cannot be asked is unknown.

use super::{
    CodecId, EncoderBackend, EncoderCapabilities, EncoderFeatures, FeatureSupport,
    HardwarePreference, HardwareSupport, PixelFormat, RateControlMode,
};
use crate::error::{MediaError, MediaResult};
use crate::text::{up_to_zero, utf16_text, wide_to_string};
use vstd::prelude::*;

verus! {

/// An enumerated encoder.
#[derive(Debug)]
pub struct EncoderMftInfo {
    pub friendly_name: String,
    pub hardware: bool,
}

/// The name of an encoder: the text of its name attribute, or a placeholder where there is none.
pub open spec fn encoder_name(name: Option<Seq<u16>>) -> Seq<char> {
    match name {
        Some(buf) if utf16_text(up_to_zero(buf)).len() > 0 => utf16_text(up_to_zero(buf)),
        _ => "(unnamed)"@,
    }
}

pub fn friendly_name(name: Option<&[u16]>) -> (s: String)
    ensures
        s@ == encoder_name(
            match name {
                Some(buf) => Some(buf@),
                None => None,
            },
        ),
{
    if let Some(buf) = name {
        let s: String = wide_to_string(buf);
        if !s.as_str().is_empty() {
            return s;
        }
    }
    String::from_str("(unnamed)")
}

/// Enumeration flags of the media layer.
pub const ENUM_SYNC: i32 = 1;

pub const ENUM_ASYNC: i32 = 2;

pub const ENUM_HARDWARE: i32 = 4;

pub const ENUM_SORT_AND_FILTER: i32 = 64;

/// Which encoders to enumerate.
pub fn enumeration_flags(hardware_only: bool) -> (flags: i32)
    ensures
        flags == (if hardware_only {
            ENUM_HARDWARE | ENUM_SORT_AND_FILTER
        } else {
            ENUM_HARDWARE | ENUM_SYNC | ENUM_ASYNC | ENUM_SORT_AND_FILTER
        }),
{
    if hardware_only {
        ENUM_HARDWARE | ENUM_SORT_AND_FILTER
    } else {
        ENUM_HARDWARE | ENUM_SYNC | ENUM_ASYNC | ENUM_SORT_AND_FILTER
    }
}

/// The names of the encoders, separated by a comma and a space.
pub open spec fn names_joined(list: Seq<EncoderMftInfo>) -> Seq<char>
    decreases list.len(),
{
    if list.len() == 0 {
        Seq::empty()
    } else if list.len() == 1 {
        list[0].friendly_name@
    } else {
        names_joined(list.drop_last()) + ", "@ + list.last().friendly_name@
    }
}

fn join_names(list: &Vec<EncoderMftInfo>) -> (s: String)
    ensures
        s@ == names_joined(list@),
{
    let mut s: String = String::new();
    let mut i: usize = 0;
    assert(list@.take(0) == Seq::<EncoderMftInfo>::empty());
    while i < list.len()
        invariant
            i <= list.len(),
            s@ == names_joined(list@.take(i as int)),
        decreases list.len() - i,
    {
        assert(list@.take(i + 1).drop_last() == list@.take(i as int));
        if i > 0 {
            s.append(", ");
        }
        s.append(list[i].friendly_name.as_str());
        i = i + 1;
        assert(s@ == names_joined(list@.take(i as int)));
    }
    assert(list@.take(i as int) == list@);
    s
}

/// The texts of a list of notes.
pub open spec fn note_texts(notes: Seq<String>) -> Seq<Seq<char>> {
    notes.map_values(|s: String| s@)
}

/// The notes of a probe: a failed enumeration, what was found, what was asked for, and what the
/// backend does not offer.
pub open spec fn probe_notes(
    found: MediaResult<Vec<EncoderMftInfo>>,
    pref: HardwarePreference,
) -> Seq<Seq<char>> {
    let failure = match found {
        Ok(_) => Seq::<Seq<char>>::empty(),
        Err(e) => seq!["硬件编码器枚举失败："@ + e.message_text()],
    };
    let result = match found {
        Ok(list) if list@.len() > 0 => "枚举到硬件 H.264 编码器 MFT："@ + names_joined(list@),
        _ => "未枚举到硬件 H.264 编码器 MFT"@,
    };
    let request = match pref {
        HardwarePreference::PreferHardware =>
            "已请求硬件编码路径（MF_READWRITE_ENABLE_HARDWARE_TRANSFORMS = TRUE）"@,
        HardwarePreference::PreferSoftware => "诊断模式：已强制软件编码路径（硬件开关 = FALSE）"@,
    };
    failure + seq![result, request, "HEVC / AV1 后端在 V0.1 未实现，能力查询返回 Unsupported"@]
}

/// The capabilities that follow from the enumeration of hardware encoders.
pub fn probe_h264(found: MediaResult<Vec<EncoderMftInfo>>, pref: HardwarePreference) -> (caps:
    EncoderCapabilities)
    ensures
        caps.backend == EncoderBackend::MediaFoundation,
        caps.codec == CodecId::H264,
        caps.hardware == (match found {
            Ok(list) if list@.len() > 0 => HardwareSupport::Available,
            _ => HardwareSupport::Unavailable,
        }),
        caps.input_formats@ == seq![PixelFormat::Nv12],
        caps.max_width == 0,
        caps.max_height == 0,
        caps.max_fps is None,
        caps.features.bframes == FeatureSupport::Unknown,
        caps.features.rate_control@ == seq![RateControlMode::PeakConstrainedVbr],
        caps.features.low_latency == FeatureSupport::Unknown,
        caps.features.max_bitrate is None,
        note_texts(caps.notes@) == probe_notes(found, pref),
{
    let mut notes: Vec<String> = Vec::new();
    let mut hardware: HardwareSupport = HardwareSupport::Unavailable;
    match &found {
        Ok(list) => {
            if list.len() > 0 {
                hardware = HardwareSupport::Available;
                let names: String = join_names(list);
                notes.push(String::from_str("枚举到硬件 H.264 编码器 MFT：").concat(names.as_str()));
            } else {
                notes.push(String::from_str("未枚举到硬件 H.264 编码器 MFT"));
            }
        },
        Err(e) => {
            let why: String = e.message();
            notes.push(String::from_str("硬件编码器枚举失败：").concat(why.as_str()));
            notes.push(String::from_str("未枚举到硬件 H.264 编码器 MFT"));
        },
    }
    match pref {
        HardwarePreference::PreferHardware => {
            notes.push(
                String::from_str(
                    "已请求硬件编码路径（MF_READWRITE_ENABLE_HARDWARE_TRANSFORMS = TRUE）",
                ),
            );
        },
        HardwarePreference::PreferSoftware => {
            notes.push(String::from_str("诊断模式：已强制软件编码路径（硬件开关 = FALSE）"));
        },
    }
    notes.push(String::from_str("HEVC / AV1 后端在 V0.1 未实现，能力查询返回 Unsupported"));
    assert(note_texts(notes@) =~= probe_notes(found, pref));
    EncoderCapabilities {
        backend: EncoderBackend::MediaFoundation,
        codec: CodecId::H264,
        hardware,
        input_formats: vec![PixelFormat::Nv12],
        max_width: 0,
        max_height: 0,
        max_fps: None,
        features: EncoderFeatures {
            bframes: FeatureSupport::Unknown,
            rate_control: vec![RateControlMode::PeakConstrainedVbr],
            low_latency: FeatureSupport::Unknown,
            max_bitrate: None,
        },
        notes,
    }
}

/// One more encoder puts its name behind the others, with a comma between.
pub proof fn law_names_are_joined_in_order(list: Seq<EncoderMftInfo>, next: EncoderMftInfo)
    ensures
        list.len() == 0 ==> names_joined(list.push(next)) == next.friendly_name@,
        list.len() > 0 ==> names_joined(list.push(next)) == names_joined(list) + ", "@
            + next.friendly_name@,
{
    assert(list.push(next).drop_last() =~= list);
}

/// Every probe notes what was found, what was asked for and what is not offered; a failed
/// enumeration is noted first, with its reason.
pub proof fn law_probes_note_what_was_found(
    found: MediaResult<Vec<EncoderMftInfo>>,
    pref: HardwarePreference,
)
    ensures
        found is Ok ==> probe_notes(found, pref).len() == 3,
        found matches Err(e) ==> {
            &&& probe_notes(found, pref).len() == 4
            &&& probe_notes(found, pref)[0] == "硬件编码器枚举失败："@ + e.message_text()
            &&& probe_notes(found, pref)[1] == "未枚举到硬件 H.264 编码器 MFT"@
        },
        (found matches Ok(list) && list@.len() > 0) ==> probe_notes(found, pref)[0]
            == "枚举到硬件 H.264 编码器 MFT："@ + names_joined(found->Ok_0@),
        (found matches Ok(list) && list@.len() == 0) ==> probe_notes(found, pref)[0]
            == "未枚举到硬件 H.264 编码器 MFT"@,
{
}

/// The texts of the notes stand in the order of the notes.
pub proof fn law_notes_keep_their_order(notes: Seq<String>)
    ensures
        note_texts(notes).len() == notes.len(),
        forall|i: int| 0 <= i < notes.len() ==> (#[trigger] note_texts(notes)[i]) == notes[i]@,
{
}

/// An encoder is called by the text of its name up to the first zero; only where that is empty, or
/// where there is no name, a placeholder takes its place.
pub proof fn law_encoders_are_called_by_name(buf: Seq<u16>)
    ensures
        utf16_text(up_to_zero(buf)).len() > 0 ==> encoder_name(Some(buf)) == utf16_text(
            up_to_zero(buf),
        ),
        utf16_text(up_to_zero(buf)).len() == 0 ==> encoder_name(Some(buf)) == "(unnamed)"@,
        encoder_name(None) == "(unnamed)"@,
{
}

} // verus!
