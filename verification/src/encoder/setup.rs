//! Setting up the file writer, one request at a time.
//!
//! The writer accepts streams only until the first input type is set, and input types only until
//! writing begins. The sequence is therefore fixed: all streams, all input types, begin. Two
//! refusals have a fallback: a High profile stream is retried as Main, and refused encoding
//! parameters are left out.

use super::capabilities::note_texts;
use super::media_types::H264Profile;
use super::{ConfigureOutcome, EncoderCapabilities, EncoderConfig, FinalizeOutcome, HardwarePreference, HardwareSupport};
use crate::counter::{bump, next_count};
use crate::encoder::{recorded_duration, samples_duration};
use crate::error::{MediaError, MediaResult, OsError};
use crate::text::{hex, push_hex};
use vstd::prelude::*;

verus! {

/// The request that is due next.
#[derive(Debug, Clone, Copy, PartialEq, Eq, Structural)]
pub enum SetupStage {
    /// Add the video stream in this profile.
    AddVideo(H264Profile),
    /// Add the AAC stream.
    AddAudio,
    /// Set the NV12 input type, with or without encoding parameters.
    SetVideoInput { with_params: bool, fallback: bool },
    /// Set the PCM input type.
    SetAudioInput,
    BeginWriting,
    Done,
}

impl SetupStage {
    /// Adds a stream.
    pub open spec fn adds_stream(self) -> bool {
        self is AddVideo || self is AddAudio
    }

    /// The place in the sequence.
    pub open spec fn rank(self) -> int {
        match self {
            SetupStage::AddVideo(H264Profile::High) => 0,
            SetupStage::AddVideo(H264Profile::Main) => 1,
            SetupStage::AddAudio => 2,
            SetupStage::SetVideoInput { with_params: true, .. } => 3,
            SetupStage::SetVideoInput { with_params: false, .. } => 4,
            SetupStage::SetAudioInput => 5,
            SetupStage::BeginWriting => 6,
            SetupStage::Done => 7,
        }
    }
}

/// The fixed facts of a set-up.
pub struct SetupFacts {
    pub audio: bool,
    pub params: bool,
}

/// The stage after an accepted request.
pub open spec fn after_success(facts: SetupFacts, stage: SetupStage) -> SetupStage {
    match stage {
        SetupStage::AddVideo(_) => if facts.audio {
            SetupStage::AddAudio
        } else {
            SetupStage::SetVideoInput { with_params: facts.params, fallback: false }
        },
        SetupStage::AddAudio => SetupStage::SetVideoInput {
            with_params: facts.params,
            fallback: false,
        },
        SetupStage::SetVideoInput { .. } => if facts.audio {
            SetupStage::SetAudioInput
        } else {
            SetupStage::BeginWriting
        },
        SetupStage::SetAudioInput => SetupStage::BeginWriting,
        SetupStage::BeginWriting => SetupStage::Done,
        SetupStage::Done => SetupStage::Done,
    }
}

/// The stage after a refused request that has a fallback.
pub open spec fn after_refusal(stage: SetupStage) -> Option<SetupStage> {
    match stage {
        SetupStage::AddVideo(H264Profile::High) => Some(SetupStage::AddVideo(H264Profile::Main)),
        SetupStage::SetVideoInput { with_params: true, .. } => Some(
            SetupStage::SetVideoInput { with_params: false, fallback: true },
        ),
        _ => None,
    }
}

/// The error of a refused request without a fallback.
pub open spec fn refusal_error(stage: SetupStage, source: OsError) -> MediaError {
    match stage {
        SetupStage::AddVideo(_) => MediaError::MuxerInitFailed(source),
        SetupStage::AddAudio => MediaError::MuxerInitFailed(source),
        SetupStage::SetVideoInput { fallback, .. } => MediaError::EncoderInitFailed {
            stage: if fallback {
                "SetInputMediaType(NV12, fallback)"
            } else {
                "SetInputMediaType(NV12)"
            },
            source,
        },
        SetupStage::SetAudioInput => MediaError::EncoderInitFailed {
            stage: "SetInputMediaType(PCM)",
            source,
        },
        _ => MediaError::EncoderInitFailed { stage: "BeginWriting", source },
    }
}

/// A two's complement bit pattern as a number.
pub open spec fn bit_pattern(code: i32) -> nat {
    if code < 0 {
        (code + 0x1_0000_0000) as nat
    } else {
        code as nat
    }
}

/// The note about refused encoding parameters.
pub open spec fn params_refused_note(code: i32) -> Seq<char> {
    "编码参数被拒绝（0x"@ + hex(bit_pattern(code)) + "），回退编码器默认值"@
}

/// The note about the profile fallback.
pub open spec fn profile_note() -> Seq<char> {
    "High profile 被拒，已回退 Main profile"@
}

/// The note about a missing device manager.
pub open spec fn no_manager_note() -> Seq<char> {
    "未提供 DXGI device manager：硬件 MFT 可能需要隐式 CPU 往返"@
}

/// A set-up in progress.
#[derive(Debug)]
pub struct EncoderSetup {
    stage: SetupStage,
    audio: bool,
    params: bool,
    profile: H264Profile,
    video_stream: u32,
    audio_stream: Option<u32>,
    params_applied: bool,
    notes: Vec<String>,
}

impl EncoderSetup {
    pub closed spec fn at(&self) -> SetupStage {
        self.stage
    }

    pub closed spec fn facts(&self) -> SetupFacts {
        SetupFacts { audio: self.audio, params: self.params }
    }

    pub closed spec fn chosen_profile(&self) -> H264Profile {
        self.profile
    }

    /// The indices of the video and of the audio stream.
    pub closed spec fn streams(&self) -> (u32, Option<u32>) {
        (self.video_stream, self.audio_stream)
    }

    pub closed spec fn applied(&self) -> bool {
        self.params_applied
    }

    pub closed spec fn note_list(&self) -> Seq<Seq<char>> {
        note_texts(self.notes@)
    }

    /// What the stage says about the streams and parameters so far.
    pub open spec fn wf(&self) -> bool {
        let stage = self.at();
        &&& stage matches SetupStage::AddVideo(p) ==> p == self.chosen_profile()
        &&& stage is AddAudio || stage is SetAudioInput ==> self.facts().audio
        &&& stage matches SetupStage::SetVideoInput { with_params, fallback } ==> {
            &&& with_params ==> self.facts().params && !fallback
            &&& !with_params ==> fallback == self.facts().params
        }
        &&& self.streams().1 is Some <==> self.facts().audio && !stage.adds_stream()
        &&& self.applied() ==> stage.rank() > 4 && self.facts().params
    }

    /// Starts a set-up. A recording without a device manager is possible, but noted.
    pub fn new(audio: bool, params: bool, device_manager: bool) -> (s: EncoderSetup)
        ensures
            s.wf(),
            s.at() == SetupStage::AddVideo(H264Profile::High),
            s.facts() == (SetupFacts { audio, params }),
            !s.applied(),
            s.note_list() == (if device_manager {
                Seq::<Seq<char>>::empty()
            } else {
                seq![no_manager_note()]
            }),
    {
        let mut notes: Vec<String> = Vec::new();
        if !device_manager {
            notes.push(
                String::from_str("未提供 DXGI device manager：硬件 MFT 可能需要隐式 CPU 往返"),
            );
        }
        assert(note_texts(notes@) =~= (if device_manager {
            Seq::<Seq<char>>::empty()
        } else {
            seq![no_manager_note()]
        }));
        EncoderSetup {
            stage: SetupStage::AddVideo(H264Profile::High),
            audio,
            params,
            profile: H264Profile::High,
            video_stream: 0,
            audio_stream: None,
            params_applied: false,
            notes,
        }
    }

    /// The request to make now.
    pub fn stage(&self) -> (stage: SetupStage)
        ensures
            stage == self.at(),
    {
        self.stage
    }

    pub fn video_stream(&self) -> (index: u32)
        ensures
            index == self.streams().0,
    {
        self.video_stream
    }

    pub fn audio_stream(&self) -> (index: Option<u32>)
        ensures
            index == self.streams().1,
    {
        self.audio_stream
    }

    fn succeed(&mut self)
        ensures
            final(self).at() == after_success(old(self).facts(), old(self).at()),
            final(self).facts() == old(self).facts(),
            final(self).chosen_profile() == old(self).chosen_profile(),
            final(self).streams() == old(self).streams(),
            final(self).applied() == old(self).applied(),
            final(self).note_list() == old(self).note_list(),
    {
        self.stage =
        match self.stage {
            SetupStage::AddVideo(_) => if self.audio {
                SetupStage::AddAudio
            } else {
                SetupStage::SetVideoInput { with_params: self.params, fallback: false }
            },
            SetupStage::AddAudio => SetupStage::SetVideoInput {
                with_params: self.params,
                fallback: false,
            },
            SetupStage::SetVideoInput { .. } => if self.audio {
                SetupStage::SetAudioInput
            } else {
                SetupStage::BeginWriting
            },
            SetupStage::SetAudioInput => SetupStage::BeginWriting,
            SetupStage::BeginWriting => SetupStage::Done,
            SetupStage::Done => SetupStage::Done,
        };
    }

    /// Takes the answer to a request that adds a stream.
    pub fn stream_added(&mut self, answer: Result<u32, OsError>) -> (r: MediaResult<()>)
        requires
            old(self).wf(),
            old(self).at().adds_stream(),
        ensures
            final(self).wf(),
            final(self).facts() == old(self).facts(),
            final(self).applied() == old(self).applied(),
            match answer {
                Ok(index) => {
                    &&& r is Ok
                    &&& final(self).at() == after_success(old(self).facts(), old(self).at())
                    &&& final(self).chosen_profile() == old(self).chosen_profile()
                    &&& final(self).streams() == (if old(self).at() is AddVideo {
                        (index, old(self).streams().1)
                    } else {
                        (old(self).streams().0, Some(index))
                    })
                    &&& final(self).note_list() == (if old(self).at() == SetupStage::AddVideo(
                        H264Profile::Main,
                    ) {
                        old(self).note_list().push(profile_note())
                    } else {
                        old(self).note_list()
                    })
                },
                Err(source) => {
                    &&& final(self).note_list() == old(self).note_list()
                    &&& final(self).streams() == old(self).streams()
                    &&& match after_refusal(old(self).at()) {
                        Some(next) => {
                            &&& r is Ok
                            &&& final(self).at() == next
                            &&& final(self).chosen_profile() == H264Profile::Main
                        },
                        None => {
                            &&& r == Err::<(), MediaError>(refusal_error(old(self).at(), source))
                            &&& final(self).at() == old(self).at()
                            &&& final(self).chosen_profile() == old(self).chosen_profile()
                        },
                    }
                },
            },
    {
        match answer {
            Ok(index) => {
                match self.stage {
                    SetupStage::AddVideo(profile) => {
                        self.video_stream = index;
                        if profile == H264Profile::Main {
                            let ghost before = self.notes@;
                            self.notes.push(
                                String::from_str("High profile 被拒，已回退 Main profile"),
                            );
                            assert(note_texts(self.notes@) =~= note_texts(before).push(
                                profile_note(),
                            ));
                        }
                    },
                    _ => {
                        self.audio_stream = Some(index);
                    },
                }
                self.succeed();
                Ok(())
            },
            Err(source) => {
                if self.stage == SetupStage::AddVideo(H264Profile::High) {
                    self.profile = H264Profile::Main;
                    self.stage = SetupStage::AddVideo(H264Profile::Main);
                    Ok(())
                } else {
                    Err(MediaError::MuxerInitFailed(source))
                }
            },
        }
    }

    /// Takes the answer to a request that sets an input type or begins writing.
    pub fn accepted(&mut self, answer: Result<(), OsError>) -> (r: MediaResult<()>)
        requires
            old(self).wf(),
            !old(self).at().adds_stream(),
            !(old(self).at() is Done),
        ensures
            final(self).wf(),
            final(self).facts() == old(self).facts(),
            final(self).streams() == old(self).streams(),
            final(self).chosen_profile() == old(self).chosen_profile(),
            match answer {
                Ok(()) => {
                    &&& r is Ok
                    &&& final(self).at() == after_success(old(self).facts(), old(self).at())
                    &&& final(self).applied() == (old(self).applied() || old(self).at().rank() == 3)
                    &&& final(self).note_list() == old(self).note_list()
                },
                Err(source) => {
                    &&& final(self).applied() == old(self).applied()
                    &&& match after_refusal(old(self).at()) {
                        Some(next) => {
                            &&& r is Ok
                            &&& final(self).at() == next
                            &&& final(self).note_list() == old(self).note_list().push(
                                params_refused_note(source.code),
                            )
                        },
                        None => {
                            &&& r == Err::<(), MediaError>(refusal_error(old(self).at(), source))
                            &&& final(self).at() == old(self).at()
                            &&& final(self).note_list() == old(self).note_list()
                        },
                    }
                },
            },
    {
        match answer {
            Ok(()) => {
                if let SetupStage::SetVideoInput { with_params: true, .. } = self.stage {
                    self.params_applied = true;
                }
                self.succeed();
                Ok(())
            },
            Err(source) => match self.stage {
                SetupStage::SetVideoInput { with_params, fallback } => {
                    if with_params {
                        let ghost before = self.notes@;
                        let mut note: String = String::from_str("编码参数被拒绝（0x");
                        let pattern: u64 = if source.code < 0 {
                            (source.code as i64 + 0x1_0000_0000) as u64
                        } else {
                            source.code as u64
                        };
                        push_hex(&mut note, pattern);
                        note.append("），回退编码器默认值");
                        self.notes.push(note);
                        assert(note_texts(self.notes@) =~= note_texts(before).push(
                            params_refused_note(source.code),
                        ));
                        self.stage =
                        SetupStage::SetVideoInput { with_params: false, fallback: true };
                        Ok(())
                    } else if fallback {
                        Err(
                            MediaError::EncoderInitFailed {
                                stage: "SetInputMediaType(NV12, fallback)",
                                source,
                            },
                        )
                    } else {
                        Err(
                            MediaError::EncoderInitFailed {
                                stage: "SetInputMediaType(NV12)",
                                source,
                            },
                        )
                    }
                },
                SetupStage::SetAudioInput => Err(
                    MediaError::EncoderInitFailed { stage: "SetInputMediaType(PCM)", source },
                ),
                _ => Err(MediaError::EncoderInitFailed { stage: "BeginWriting", source }),
            },
        }
    }

    /// The outcome of a complete set-up: what was asked for, what was found, and all notes, those
    /// of the probe last.
    pub fn outcome(self, cfg: &EncoderConfig, caps: &mut EncoderCapabilities) -> (o:
        ConfigureOutcome)
        requires
            self.wf(),
            self.at() is Done,
        ensures
            o.width == cfg.width,
            o.height == cfg.height,
            o.fps == cfg.fps,
            o.bitrate == cfg.bitrate,
            o.profile@ == self.chosen_profile().label(),
            o.hardware_requested == (cfg.hardware == HardwarePreference::PreferHardware),
            o.hardware_mft_found == (old(caps).hardware == HardwareSupport::Available),
            o.encoder_params_applied == self.applied(),
            note_texts(o.notes@) == self.note_list() + note_texts(old(caps).notes@),
            *final(caps) == (EncoderCapabilities { notes: final(caps).notes, ..*old(caps) }),
            final(caps).notes@ == Seq::<String>::empty(),
    {
        let mut notes: Vec<String> = self.notes;
        notes.append(&mut caps.notes);
        assert(note_texts(notes@) =~= self.note_list() + note_texts(old(caps).notes@));
        ConfigureOutcome {
            width: cfg.width,
            height: cfg.height,
            fps: cfg.fps,
            bitrate: cfg.bitrate,
            profile: self.profile.as_str().to_owned(),
            hardware_requested: cfg.hardware == HardwarePreference::PreferHardware,
            hardware_mft_found: caps.hardware == HardwareSupport::Available,
            encoder_params_applied: self.params_applied,
            notes,
        }
    }
}

/// Every answer that does not end the set-up moves it forward: all streams come before all input
/// types, these before the beginning, and after at most seven requests the set-up is complete.
pub proof fn law_setup_moves_forward(facts: SetupFacts, stage: SetupStage)
    requires
        !(stage is Done),
    ensures
        stage.rank() < after_success(facts, stage).rank() <= 7,
        after_refusal(stage) matches Some(next) ==> stage.rank() < next.rank() <= 7,
        after_success(facts, stage).adds_stream() ==> stage.adds_stream(),
        after_success(facts, stage) is Done ==> stage is BeginWriting,
{
}

/// Counts the samples that were written.
#[derive(Debug)]
pub struct SampleCounter {
    total: u64,
}

impl SampleCounter {
    pub closed spec fn count(&self) -> u64 {
        self.total
    }

    pub fn new() -> (c: SampleCounter)
        ensures
            c.count() == 0,
    {
        SampleCounter { total: 0 }
    }

    pub fn samples_created(&self) -> (n: u64)
        ensures
            n == self.count(),
    {
        self.total
    }

    pub fn note_sample(&mut self)
        ensures
            final(self).count() == next_count(old(self).count()),
    {
        bump(&mut self.total);
    }
}

/// The outcome of a finished file. A size that could not be read counts as 0.
pub fn finalize_outcome(path: &str, bytes: Option<u64>, samples: u64, fps: u32) -> (o:
    FinalizeOutcome)
    requires
        samples * 10_000_000 <= i64::MAX,
    ensures
        o.path@ == path@,
        o.bytes == (match bytes {
            Some(n) => n,
            None => 0u64,
        }),
        o.samples == samples,
        o.duration.0 == samples_duration(samples as int, fps as int),
{
    FinalizeOutcome {
        path: path.to_owned(),
        bytes: match bytes {
            Some(n) => n,
            None => 0,
        },
        samples,
        duration: recorded_duration(samples, fps),
    }
}

/// The complete file could not get its name.
pub fn rename_error(partial: &str, target: &str, why: &str) -> (e: MediaError)
    ensures
        e matches MediaError::Internal(text) && text@ == "重命名 "@ + partial@ + " -> "@ + target@
            + " 失败："@ + why@,
{
    MediaError::Internal(
        String::from_str("重命名 ").concat(partial).concat(" -> ").concat(target).concat(
            " 失败：",
        ).concat(why),
    )
}

/// The streams and input types of the sound are set up where sound is recorded, and only there;
/// the encoding parameters are offered where there are any.
pub proof fn law_sound_is_set_up_where_wanted(
    facts: SetupFacts,
    profile: H264Profile,
    input: SetupStage,
)
    requires
        input is SetVideoInput,
    ensures
        after_success(facts, SetupStage::AddVideo(profile)) is AddAudio <==> facts.audio,
        !facts.audio ==> after_success(facts, SetupStage::AddVideo(profile)) == (
        SetupStage::SetVideoInput { with_params: facts.params, fallback: false }),
        after_success(facts, SetupStage::AddAudio) == (SetupStage::SetVideoInput {
            with_params: facts.params,
            fallback: false,
        }),
        facts.audio ==> after_success(facts, input) is SetAudioInput,
        !facts.audio ==> after_success(facts, input) is BeginWriting,
        after_success(facts, SetupStage::SetAudioInput) is BeginWriting,
        after_success(facts, SetupStage::BeginWriting) is Done,
{
}

/// Two refusals have a way on: the High profile gives way to Main, and the encoding parameters
/// give way to none. Every other refusal ends the set-up.
pub proof fn law_two_refusals_have_a_way_on(stage: SetupStage)
    ensures
        stage == SetupStage::AddVideo(H264Profile::High) ==> after_refusal(stage) == Some(
            SetupStage::AddVideo(H264Profile::Main),
        ),
        (stage matches SetupStage::SetVideoInput { with_params, .. } && with_params)
            ==> after_refusal(stage) == Some(
            SetupStage::SetVideoInput { with_params: false, fallback: true },
        ),
        after_refusal(stage) is Some <==> stage == SetupStage::AddVideo(H264Profile::High) || (
        stage matches SetupStage::SetVideoInput { with_params, .. } && with_params),
{
}

/// A refused stream is the fault of the file writer, any other refusal that of the encoder; the
/// reason of the system is kept.
pub proof fn law_refusals_name_their_reason(stage: SetupStage, source: OsError)
    ensures
        stage.adds_stream() ==> refusal_error(stage, source) == MediaError::MuxerInitFailed(source),
        !stage.adds_stream() ==> (refusal_error(stage, source) matches
            MediaError::EncoderInitFailed { source: s, .. } && s == source),
        stage.adds_stream() <==> stage is AddVideo || stage is AddAudio,
{
}

/// The pattern of a code is the code itself, or what it is above -2^32 where it is negative.
pub proof fn law_patterns_differ_by_the_range(code: i32)
    ensures
        bit_pattern(code) < 0x1_0000_0000,
        code >= 0 ==> bit_pattern(code) == code,
        code < 0 ==> bit_pattern(code) - code == 0x1_0000_0000,
{
}

} // verus!
