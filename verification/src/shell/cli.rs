//! The stability run on the command line: its arguments, the configuration of a round, and what
//! counts as a failure.

use crate::audio::gain::{Gain, ONE_BITS};
use crate::audio::source::AudioSourceKind;
use crate::audio::AudioSourceSpec;
use crate::capture::display::DisplayInfo;
use crate::consts::{DEFAULT_FPS, MAX_RECORDING_SECS};
use crate::convert::Region;
use crate::encoder::HardwarePreference;
use crate::engine::{EngineState, RecordingConfig};
use crate::text::{
    chars_of, decimal, parse_number, parsed_number, same_text, text_of, trim, trimmed,
};
use vstd::prelude::*;

verus! {

/// What was asked for on the command line.
#[derive(Debug)]
pub struct Options {
    pub seconds: u64,
    pub software: bool,
    pub dir: Option<String>,
    pub repeat: usize,
    pub fps: u32,
    pub max_secs: Option<u64>,
    pub region: Option<Region>,
    pub audio: bool,
    /// List the audio endpoints and leave.
    pub list_audio: bool,
    pub audio_kind: AudioSourceKind,
    /// Arguments of `--region` that are not four numbers.
    pub bad_regions: Vec<String>,
}

/// The options without their representation.
pub struct OptionsView {
    pub seconds: u64,
    pub software: bool,
    pub dir: Option<Seq<char>>,
    pub repeat: usize,
    pub fps: u32,
    pub max_secs: Option<u64>,
    pub region: Option<Region>,
    pub audio: bool,
    pub list_audio: bool,
    pub audio_kind: AudioSourceKind,
    pub bad_regions: Seq<Seq<char>>,
}

/// The texts of a list.
pub open spec fn texts(list: Seq<String>) -> Seq<Seq<char>> {
    list.map_values(|s: String| s@)
}

impl View for Options {
    type V = OptionsView;

    open spec fn view(&self) -> OptionsView {
        OptionsView {
            seconds: self.seconds,
            software: self.software,
            dir: match self.dir {
                Some(d) => Some(d@),
                None => None,
            },
            repeat: self.repeat,
            fps: self.fps,
            max_secs: self.max_secs,
            region: self.region,
            audio: self.audio,
            list_audio: self.list_audio,
            audio_kind: self.audio_kind,
            bad_regions: texts(self.bad_regions@),
        }
    }
}

/// One round of five seconds with the sound of the system.
pub open spec fn default_options() -> OptionsView {
    OptionsView {
        seconds: 5,
        software: false,
        dir: None,
        repeat: 1,
        fps: DEFAULT_FPS,
        max_secs: None,
        region: None,
        audio: true,
        list_audio: false,
        audio_kind: AudioSourceKind::SystemLoopback,
        bad_regions: Seq::empty(),
    }
}

impl Default for Options {
    fn default() -> (o: Options)
        ensures
            o@ == default_options(),
    {
        let o: Options = Options {
            seconds: 5,
            software: false,
            dir: None,
            repeat: 1,
            fps: DEFAULT_FPS,
            max_secs: None,
            region: None,
            audio: true,
            list_audio: false,
            audio_kind: AudioSourceKind::SystemLoopback,
            bad_regions: Vec::new(),
        };
        assert(o@.bad_regions =~= default_options().bad_regions);
        o
    }
}

/// The pieces of a text between commas.
pub open spec fn pieces(s: Seq<char>) -> Seq<Seq<char>>
    decreases s.len(),
{
    if s.len() == 0 {
        seq![Seq::empty()]
    } else {
        let before = pieces(s.drop_last());
        if s.last() == ',' {
            before.push(Seq::empty())
        } else {
            before.drop_last().push(before.last().push(s.last()))
        }
    }
}

/// The pieces that are numbers of 32 bits, with or without white space around them.
pub open spec fn numbers_in(list: Seq<Seq<char>>) -> Seq<u32>
    decreases list.len(),
{
    if list.len() == 0 {
        Seq::empty()
    } else {
        let before = numbers_in(list.drop_last());
        match parsed_number(trimmed(list.last()), u32::MAX as nat) {
            Some(n) => before.push(n as u32),
            None => before,
        }
    }
}

/// The rectangle that a text stands for: four numbers, separated by commas. What is no number
/// between the commas is passed over.
pub open spec fn region_meant(s: Seq<char>) -> Option<Region> {
    let n = numbers_in(pieces(s));
    if n.len() == 4 {
        Some(Region { x: n[0], y: n[1], width: n[2], height: n[3] })
    } else {
        None
    }
}

proof fn lemma_pieces_are_not_empty(s: Seq<char>)
    ensures
        pieces(s).len() > 0,
    decreases s.len(),
{
    if s.len() > 0 {
        lemma_pieces_are_not_empty(s.drop_last());
    }
}

proof fn lemma_parsed_below(s: Seq<char>, low: nat, high: nat)
    requires
        low <= high,
    ensures
        parsed_number(s, low) == (match parsed_number(s, high) {
            Some(n) if n <= low => Some(n),
            _ => None,
        }),
{
}

fn parse_small(s: &str) -> (r: Option<u32>)
    ensures
        match r {
            Some(n) => parsed_number(s@, u32::MAX as nat) == Some(n as nat),
            None => parsed_number(s@, u32::MAX as nat) is None,
        },
{
    proof {
        lemma_parsed_below(s@, u32::MAX as nat, u64::MAX as nat);
    }
    match parse_number(s) {
        Some(n) => {
            if n <= u32::MAX as u64 {
                Some(n as u32)
            } else {
                None
            }
        },
        None => None,
    }
}

fn parse_size(s: &str) -> (r: Option<usize>)
    ensures
        match r {
            Some(n) => parsed_number(s@, usize::MAX as nat) == Some(n as nat),
            None => parsed_number(s@, usize::MAX as nat) is None,
        },
{
    proof {
        lemma_parsed_below(s@, usize::MAX as nat, u64::MAX as nat);
    }
    match parse_number(s) {
        Some(n) => {
            if n <= usize::MAX as u64 {
                Some(n as usize)
            } else {
                None
            }
        },
        None => None,
    }
}

/// Reads a rectangle.
pub fn parse_region(s: &str) -> (r: Option<Region>)
    ensures
        r == region_meant(s@),
{
    let chars: Vec<char> = chars_of(s);
    let mut numbers: Vec<u32> = Vec::new();
    let mut from: usize = 0;
    let mut i: usize = 0;
    let ghost empty: Seq<char> = Seq::empty();
    assert(chars@.take(0) =~= empty);
    assert(pieces(empty).drop_last() =~= Seq::<Seq<char>>::empty());
    assert(chars@.subrange(0, 0) =~= pieces(empty).last());
    while i < chars.len()
        invariant
            from <= i <= chars.len(),
            numbers@ == numbers_in(pieces(chars@.take(i as int)).drop_last()),
            chars@.subrange(from as int, i as int) == pieces(chars@.take(i as int)).last(),
        decreases chars.len() - i,
    {
        let ghost upto = chars@.take(i + 1);
        let ghost before = pieces(chars@.take(i as int));
        proof {
            assert(upto.drop_last() =~= chars@.take(i as int));
            lemma_pieces_are_not_empty(chars@.take(i as int));
        }
        if chars[i] == ',' {
            let piece: String = text_of(&chars, from, i);
            push_number(&mut numbers, piece.as_str());
            assert(pieces(upto).drop_last() =~= before);
            assert(before.drop_last().push(before.last()) =~= before);
            from = i + 1;
            assert(chars@.subrange(from as int, i + 1) =~= pieces(upto).last());
        } else {
            assert(pieces(upto).drop_last() =~= before.drop_last());
            assert(chars@.subrange(from as int, i + 1) =~= before.last().push(chars@[i as int]));
        }
        i = i + 1;
    }
    let piece: String = text_of(&chars, from, chars.len());
    let ghost all = pieces(chars@);
    proof {
        lemma_pieces_are_not_empty(chars@);
        assert(chars@.take(i as int) =~= s@);
        assert(all.drop_last().push(all.last()) =~= all);
    }
    push_number(&mut numbers, piece.as_str());
    if numbers.len() == 4 {
        Some(Region { x: numbers[0], y: numbers[1], width: numbers[2], height: numbers[3] })
    } else {
        None
    }
}

fn push_number(numbers: &mut Vec<u32>, piece: &str)
    ensures
        forall|list: Seq<Seq<char>>|
            old(numbers)@ == numbers_in(list) ==> final(numbers)@ == #[trigger] numbers_in(
                list.push(piece@),
            ),
{
    let bare: String = trim(piece);
    let parsed: Option<u32> = parse_small(bare.as_str());
    if let Some(n) = parsed {
        numbers.push(n);
    }
    assert forall|list: Seq<Seq<char>>| old(numbers)@ == numbers_in(list) implies numbers@
        == #[trigger] numbers_in(list.push(piece@)) by {
        assert(list.push(piece@).drop_last() =~= list);
        assert(list.push(piece@).last() == piece@);
    }
}

/// An option that takes the next argument.
pub open spec fn takes_value(arg: Seq<char>) -> bool {
    ||| arg == "--region"@
    ||| arg == "--fps"@
    ||| arg == "--max-secs"@
    ||| arg == "--dir"@
    ||| arg == "--repeat"@
}

/// The options after an argument that stands alone. What is neither an option nor a number of
/// seconds is ignored.
pub open spec fn with_flag(o: OptionsView, arg: Seq<char>) -> OptionsView {
    if arg == "--software"@ {
        OptionsView { software: true, ..o }
    } else if arg == "--no-audio"@ {
        OptionsView { audio: false, ..o }
    } else if arg == "--mic"@ {
        OptionsView { audio_kind: AudioSourceKind::Microphone, ..o }
    } else if arg == "--list-audio"@ {
        OptionsView { list_audio: true, ..o }
    } else {
        match parsed_number(arg, u64::MAX as nat) {
            Some(n) => OptionsView { seconds: n as u64, ..o },
            None => o,
        }
    }
}

/// The options after one with its value. A value that cannot be read leaves them as they are.
pub open spec fn with_value(o: OptionsView, arg: Seq<char>, value: Seq<char>) -> OptionsView {
    if arg == "--region"@ {
        match region_meant(value) {
            Some(region) => OptionsView { region: Some(region), ..o },
            None => OptionsView { bad_regions: o.bad_regions.push(value), ..o },
        }
    } else if arg == "--fps"@ {
        match parsed_number(value, u32::MAX as nat) {
            Some(n) => OptionsView { fps: n as u32, ..o },
            None => o,
        }
    } else if arg == "--max-secs"@ {
        match parsed_number(value, u64::MAX as nat) {
            Some(n) => OptionsView { max_secs: Some(n as u64), ..o },
            None => o,
        }
    } else if arg == "--dir"@ {
        OptionsView { dir: Some(value), ..o }
    } else {
        match parsed_number(value, usize::MAX as nat) {
            Some(n) => OptionsView { repeat: if n < 1 {
                1
            } else {
                n as usize
            }, ..o },
            None => o,
        }
    }
}

/// The options after all arguments. A value that is missing at the end is as if the option were
/// missing too.
pub open spec fn with_all(o: OptionsView, args: Seq<Seq<char>>) -> OptionsView
    decreases args.len(),
{
    if args.len() == 0 {
        o
    } else if takes_value(args[0]) {
        if args.len() == 1 {
            o
        } else {
            with_all(with_value(o, args[0], args[1]), args.skip(2))
        }
    } else {
        with_all(with_flag(o, args[0]), args.skip(1))
    }
}

fn value_option(arg: &str) -> (r: bool)
    ensures
        r == takes_value(arg@),
{
    same_text(arg, "--region") || same_text(arg, "--fps") || same_text(arg, "--max-secs")
        || same_text(arg, "--dir") || same_text(arg, "--repeat")
}

impl Options {
    fn flag(&mut self, arg: &str)
        ensures
            final(self)@ == with_flag(old(self)@, arg@),
    {
        if same_text(arg, "--software") {
            self.software = true;
        } else if same_text(arg, "--no-audio") {
            self.audio = false;
        } else if same_text(arg, "--mic") {
            self.audio_kind = AudioSourceKind::Microphone;
        } else if same_text(arg, "--list-audio") {
            self.list_audio = true;
        } else if let Some(n) = parse_number(arg) {
            self.seconds = n;
        }
    }

    fn value(&mut self, arg: &str, value: &String)
        ensures
            final(self)@ == with_value(old(self)@, arg@, value@),
    {
        if same_text(arg, "--region") {
            match parse_region(value.as_str()) {
                Some(region) => {
                    self.region = Some(region);
                },
                None => {
                    self.bad_regions.push(value.clone());
                    assert(self@.bad_regions =~= old(self)@.bad_regions.push(value@));
                },
            }
        } else if same_text(arg, "--fps") {
            if let Some(n) = parse_small(value.as_str()) {
                self.fps = n;
            }
        } else if same_text(arg, "--max-secs") {
            if let Some(n) = parse_number(value.as_str()) {
                self.max_secs = Some(n);
            }
        } else if same_text(arg, "--dir") {
            self.dir = Some(value.clone());
        } else {
            if let Some(n) = parse_size(value.as_str()) {
                self.repeat = if n < 1 {
                    1
                } else {
                    n
                };
            }
        }
    }

    /// Reads the arguments of the command line.
    pub fn parse(args: &Vec<String>) -> (o: Options)
        ensures
            o@ == with_all(default_options(), texts(args@)),
    {
        let mut o: Options = Options::default();
        let mut i: usize = 0;
        let ghost all = texts(args@);
        assert(all.skip(0) =~= all);
        while i < args.len()
            invariant
                i <= args.len(),
                all == texts(args@),
                with_all(o@, all.skip(i as int)) == with_all(default_options(), all),
            decreases args.len() - i,
        {
            let ghost rest = all.skip(i as int);
            let arg: &String = &args[i];
            assert(rest[0] == arg@);
            if value_option(arg.as_str()) {
                i = i + 1;
                if i < args.len() {
                    assert(rest[1] == args@[i as int]@);
                    assert(rest.skip(2) =~= all.skip(i + 1));
                    o.value(arg.as_str(), &args[i]);
                    i = i + 1;
                } else {
                    assert(all.skip(i as int) =~= Seq::<Seq<char>>::empty());
                }
            } else {
                assert(rest.skip(1) =~= all.skip(i + 1));
                o.flag(arg.as_str());
                i = i + 1;
            }
        }
        assert(all.skip(i as int) =~= Seq::<Seq<char>>::empty());
        o
    }

    /// The configuration of one round.
    pub fn round_config(&self, display_id: String, output_dir: String) -> (cfg: RecordingConfig)
        ensures
            cfg.display_id == display_id,
            cfg.output_dir == output_dir,
            cfg.fps == self.fps,
            cfg.bitrate is None,
            cfg.hardware == (if self.software {
                HardwarePreference::PreferSoftware
            } else {
                HardwarePreference::PreferHardware
            }),
            cfg.max_duration_secs == (match self.max_secs {
                Some(m) => m,
                None => MAX_RECORDING_SECS,
            }),
            cfg.region == self.region,
            cfg.audio == self.audio,
            cfg.audio_sources@ == seq![
                AudioSourceSpec { kind: self.audio_kind, gain: Gain(ONE_BITS) },
            ],
    {
        let mut cfg: RecordingConfig = RecordingConfig::new(display_id, output_dir);
        cfg.hardware = if self.software {
            HardwarePreference::PreferSoftware
        } else {
            HardwarePreference::PreferHardware
        };
        cfg.fps = self.fps;
        cfg.audio = self.audio;
        cfg.audio_sources = vec![AudioSourceSpec { kind: self.audio_kind, gain: Gain(ONE_BITS) }];
        if let Some(m) = self.max_secs {
            cfg.max_duration_secs = m;
        }
        cfg.region = self.region;
        cfg
    }

    /// Whether the progress of a round is printed: every second of a short round, about once a
    /// minute of a long one. A time before the start is printed too.
    pub fn prints_progress(&self, elapsed_ms: i64) -> (r: bool)
        ensures
            r == (self.seconds <= 15 || elapsed_ms < 0 || elapsed_ms % 60_000 < 1_100),
    {
        self.seconds <= 15 || elapsed_ms < 0 || elapsed_ms as u64 % 60_000 < 1_100
    }
}

/// The display to record: the first primary one, else the first. Nothing where there is none.
pub fn choose_display(displays: &Vec<DisplayInfo>) -> (r: Option<usize>)
    ensures
        r is None <==> displays.len() == 0,
        r matches Some(i) ==> {
            &&& i < displays.len()
            &&& displays@[i as int].primary ==> forall|j: int|
                0 <= j < i ==> !(#[trigger] displays@[j]).primary
            &&& !displays@[i as int].primary ==> i == 0 && forall|j: int|
                0 <= j < displays.len() ==> !(#[trigger] displays@[j]).primary
        },
{
    let mut i: usize = 0;
    while i < displays.len()
        invariant
            i <= displays.len(),
            forall|j: int| 0 <= j < i ==> !(#[trigger] displays@[j]).primary,
        decreases displays.len() - i,
    {
        if displays[i].primary {
            return Some(i);
        }
        i = i + 1;
    }
    if displays.len() > 0 {
        Some(0)
    } else {
        None
    }
}

/// What the state of a recording means for a round that waits for it to begin.
#[derive(Debug, Clone, Copy, PartialEq, Eq, Structural)]
pub enum Start {
    Waiting,
    Running,
    Failed,
}

pub fn start_of(state: EngineState) -> (s: Start)
    ensures
        s == (match state {
            EngineState::Recording => Start::Running,
            EngineState::Error => Start::Failed,
            _ => Start::Waiting,
        }),
{
    match state {
        EngineState::Recording => Start::Running,
        EngineState::Error => Start::Failed,
        _ => Start::Waiting,
    }
}

/// The failures of a run.
#[derive(Debug, Clone, Copy, PartialEq, Eq, Structural)]
pub struct Tally {
    pub failures: usize,
}

impl Tally {
    pub fn new() -> (t: Tally)
        ensures
            t.failures == 0,
    {
        Tally { failures: 0 }
    }

    /// A step of a round failed.
    pub fn failed(&mut self)
        requires
            old(self).failures < usize::MAX,
        ensures
            final(self).failures == old(self).failures + 1,
    {
        self.failures = self.failures + 1;
    }

    /// A round never began to record. It counts where nothing has failed so far; tells whether
    /// it did.
    pub fn never_began(&mut self) -> (counted: bool)
        ensures
            counted == (old(self).failures == 0),
            final(self).failures == (if counted {
                1
            } else {
                old(self).failures
            }),
    {
        if self.failures == 0 {
            self.failures = 1;
            true
        } else {
            false
        }
    }

    /// The exit code of the run.
    pub fn exit_code(&self) -> (code: i32)
        ensures
            code == (if self.failures > 0 {
                2int
            } else {
                0int
            }),
    {
        if self.failures > 0 {
            2
        } else {
            0
        }
    }
}

/// Frames that a decoded file may be off.
pub const FRAME_TOLERANCE: i64 = 3;

/// The number of frames to expect of a recording whose length stands for `planned` frames: those
/// that were dropped at the start are not in the file.
pub open spec fn frames_to_expect(planned: int, dropped_startup: int) -> int {
    planned - dropped_startup
}

/// Compares the frames of a decoded file with those to expect. Gives the expected number where
/// the difference is too large.
pub fn frame_mismatch(planned: i64, dropped_startup: u64, decoded: u64) -> (r: Option<i128>)
    ensures
        ({
            let expected = frames_to_expect(planned as int, dropped_startup as int);
            &&& r is Some <==> decoded - expected > FRAME_TOLERANCE || expected - decoded
                > FRAME_TOLERANCE
            &&& r matches Some(e) ==> e == expected
        }),
{
    let expected: i128 = planned as i128 - dropped_startup as i128;
    let off: i128 = decoded as i128 - expected;
    if off > FRAME_TOLERANCE as i128 || -off > FRAME_TOLERANCE as i128 {
        Some(expected)
    } else {
        None
    }
}

/// How far two lengths in milliseconds are apart.
pub fn length_error(decoded_ms: i64, recorded_ms: i64) -> (d: u64)
    ensures
        d == (if decoded_ms >= recorded_ms {
            decoded_ms - recorded_ms
        } else {
            recorded_ms - decoded_ms
        }),
{
    if decoded_ms >= recorded_ms {
        (decoded_ms as i128 - recorded_ms as i128) as u64
    } else {
        (recorded_ms as i128 - decoded_ms as i128) as u64
    }
}

/// An option at the end that lacks its value changes nothing.
pub proof fn law_missing_value_is_ignored(o: OptionsView, arg: Seq<char>)
    requires
        takes_value(arg),
    ensures
        with_all(o, seq![arg]) == o,
{
}

/// A run has at least one round, whatever the arguments.
pub proof fn law_there_is_a_round(o: OptionsView, args: Seq<Seq<char>>)
    requires
        o.repeat >= 1,
    ensures
        with_all(o, args).repeat >= 1,
    decreases args.len(),
{
    if args.len() > 0 {
        if takes_value(args[0]) {
            if args.len() > 1 {
                law_there_is_a_round(with_value(o, args[0], args[1]), args.skip(2));
            }
        } else {
            law_there_is_a_round(with_flag(o, args[0]), args.skip(1));
        }
    }
}

/// A piece ends at a comma: what stands before one and what stands behind it are taken apart
/// independently.
pub proof fn law_commas_part_the_pieces(a: Seq<char>, b: Seq<char>)
    ensures
        pieces(a + seq![','] + b) == pieces(a) + pieces(b),
    decreases b.len(),
{
    let whole = a + seq![','] + b;
    lemma_pieces_are_not_empty(a);
    lemma_pieces_are_not_empty(b);
    if b.len() == 0 {
        assert(whole.drop_last() =~= a);
        assert(whole.last() == ',');
        assert(pieces(whole) =~= pieces(a) + pieces(b));
    } else {
        law_commas_part_the_pieces(a, b.drop_last());
        lemma_pieces_are_not_empty(b.drop_last());
        assert(whole.drop_last() =~= a + seq![','] + b.drop_last());
        assert(whole.last() == b.last());
        assert(pieces(whole) =~= pieces(a) + pieces(b));
    }
}

proof fn lemma_one_piece(s: Seq<char>)
    requires
        forall|i: int| 0 <= i < s.len() ==> s[i] != ',',
    ensures
        pieces(s) == seq![s],
    decreases s.len(),
{
    if s.len() > 0 {
        lemma_one_piece(s.drop_last());
        assert(s.drop_last().push(s.last()) =~= s);
        assert(pieces(s) =~= seq![s]);
    } else {
        assert(s =~= Seq::<char>::empty());
    }
}

proof fn lemma_digits_only(n: nat)
    ensures
        forall|i: int|
            0 <= i < decimal(n).len() ==> '0' <= #[trigger] decimal(n)[i] && decimal(n)[i] <= '9',
        decimal(n).len() > 0,
        pieces(decimal(n)) == seq![decimal(n)],
        trimmed(decimal(n)) == decimal(n),
    decreases n,
{
    if n >= 10 {
        lemma_digits_only(n / 10);
        assert(decimal(n).drop_last() =~= decimal(n / 10));
        assert forall|i: int| 0 <= i < decimal(n).len() implies '0' <= #[trigger] decimal(n)[i]
            && decimal(n)[i] <= '9' by {
            if i < decimal(n).len() - 1 {
                assert(decimal(n)[i] == decimal(n / 10)[i]);
            }
        }
    }
    lemma_one_piece(decimal(n));
    assert(decimal(n)[0] <= '9' && '0' <= decimal(n)[0]);
    assert(decimal(n)[decimal(n).len() - 1] <= '9' && '0' <= decimal(n)[decimal(n).len() - 1]);
    crate::text::lemma_trim_of_solid(decimal(n));
}

/// A rectangle is written as its left edge, its upper edge, its width and its height, in this
/// order.
pub proof fn law_regions_read_back(region: Region)
    ensures
        region_meant(
            decimal(region.x as nat) + seq![','] + (decimal(region.y as nat) + seq![','] + (
            decimal(region.width as nat) + seq![','] + decimal(region.height as nat))),
        ) == Some(region),
{
    let x = decimal(region.x as nat);
    let y = decimal(region.y as nat);
    let w = decimal(region.width as nat);
    let h = decimal(region.height as nat);
    lemma_digits_only(region.x as nat);
    lemma_digits_only(region.y as nat);
    lemma_digits_only(region.width as nat);
    lemma_digits_only(region.height as nat);
    law_commas_part_the_pieces(w, h);
    law_commas_part_the_pieces(y, w + seq![','] + h);
    law_commas_part_the_pieces(x, y + seq![','] + (w + seq![','] + h));
    let list = pieces(x + seq![','] + (y + seq![','] + (w + seq![','] + h)));
    assert(list =~= seq![x, y, w, h]);
    crate::text::law_decimal_reads_back(region.x as nat);
    crate::text::law_decimal_reads_back(region.y as nat);
    crate::text::law_decimal_reads_back(region.width as nat);
    crate::text::law_decimal_reads_back(region.height as nat);
    assert(parsed_number(x, u32::MAX as nat) == Some(region.x as nat));
    assert(parsed_number(y, u32::MAX as nat) == Some(region.y as nat));
    assert(parsed_number(w, u32::MAX as nat) == Some(region.width as nat));
    assert(parsed_number(h, u32::MAX as nat) == Some(region.height as nat));
    let one = seq![x];
    let two = seq![x, y];
    let three = seq![x, y, w];
    assert(one.drop_last() =~= Seq::<Seq<char>>::empty());
    assert(two.drop_last() =~= one);
    assert(three.drop_last() =~= two);
    assert(list.drop_last() =~= three);
    assert(numbers_in(Seq::<Seq<char>>::empty()) =~= Seq::<u32>::empty());
    assert(one.last() == x);
    assert(numbers_in(one) =~= seq![region.x]);
    assert(numbers_in(two) =~= seq![region.x, region.y]);
    assert(numbers_in(three) =~= seq![region.x, region.y, region.width]);
    assert(numbers_in(list) =~= seq![region.x, region.y, region.width, region.height]);
}

/// An option that stands alone switches what it is called and nothing else; a number is the length
/// of the recording in seconds.
pub proof fn law_flags_switch_one_thing(o: OptionsView, n: u64)
    ensures
        with_flag(o, "--software"@) == (OptionsView { software: true, ..o }),
        with_flag(o, "--no-audio"@) == (OptionsView { audio: false, ..o }),
        with_flag(o, "--mic"@) == (OptionsView { audio_kind: AudioSourceKind::Microphone, ..o }),
        with_flag(o, "--list-audio"@) == (OptionsView { list_audio: true, ..o }),
        with_flag(o, decimal(n as nat)) == (OptionsView { seconds: n, ..o }),
{
    reveal_strlit("--software");
    reveal_strlit("--no-audio");
    reveal_strlit("--mic");
    reveal_strlit("--list-audio");
    lemma_digits_only(n as nat);
    crate::text::law_decimal_reads_back(n as nat);
    assert(decimal(n as nat)[0] >= '0');
    assert("--software"@[2] == 's');
    assert("--no-audio"@[2] == 'n');
    assert("--list-audio"@.len() == 12 && "--mic"@.len() == 5 && "--software"@.len() == 10);
}

/// A value goes where its option says and nowhere else.
pub proof fn law_values_go_where_they_belong(o: OptionsView, n: u32, dir: Seq<char>)
    ensures
        with_value(o, "--fps"@, decimal(n as nat)) == (OptionsView { fps: n, ..o }),
        with_value(o, "--max-secs"@, decimal(n as nat)) == (OptionsView {
            max_secs: Some(n as u64),
            ..o
        }),
        with_value(o, "--dir"@, dir) == (OptionsView { dir: Some(dir), ..o }),
        n > 0 ==> with_value(o, "--repeat"@, decimal(n as nat)) == (OptionsView {
            repeat: n as usize,
            ..o
        }),
        region_meant(dir) matches Some(r) ==> with_value(o, "--region"@, dir) == (OptionsView {
            region: Some(r),
            ..o
        }),
        region_meant(dir) is None ==> with_value(o, "--region"@, dir).region == o.region
            && with_value(o, "--region"@, dir).bad_regions == o.bad_regions.push(dir),
        takes_value("--fps"@) && takes_value("--max-secs"@) && takes_value("--dir"@)
            && takes_value("--repeat"@) && takes_value("--region"@),
{
    reveal_strlit("--fps");
    reveal_strlit("--max-secs");
    reveal_strlit("--dir");
    reveal_strlit("--repeat");
    reveal_strlit("--region");
    crate::text::law_decimal_reads_back(n as nat);
    assert("--fps"@[2] == 'f');
    assert("--dir"@[2] == 'd');
    assert("--repeat"@[4] == 'p');
    assert("--region"@[4] == 'g');
    assert(u32::MAX <= usize::MAX);
}

/// Frames that were dropped at the start and frames to expect make up what was planned.
pub proof fn law_startup_drops_are_not_expected(planned: int, dropped_startup: int)
    ensures
        frames_to_expect(planned, dropped_startup) + dropped_startup == planned,
{
}

} // verus!
