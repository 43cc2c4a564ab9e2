//! The user's settings: audio sources, the hot key, and whether captures show the window.
//!
//! A file that is missing or damaged never keeps the program from starting; the defaults take its
//! place.

use crate::audio::gain::{
    clamp_gain, gain_in_range, gain_within, is_nan, magnitude, Gain,
    INFINITY_BITS, ONE_BITS, SIGN_BIT,
};
use crate::text::{
    chars_of, decimal, lemma_trim_of_solid, lemma_trimmed_is_idempotent, lower, lower_char,
    push_decimal, same_text, text_of, to_lower, trim, trimmed,
};
use vstd::prelude::*;

verus! {

/// What is wanted of one audio source.
#[derive(Debug)]
pub struct AudioSourcePref {
    /// `system` or `microphone`.
    pub kind: String,
    pub gain: Gain,
}

#[derive(Debug)]
pub struct AppSettings {
    pub audio_sources: Vec<AudioSourcePref>,
    /// The hot key, or none where it is switched off.
    pub hotkey: Option<String>,
    /// Captures show the control window.
    pub capture_visible: bool,
}

/// One source as it is wanted.
pub struct PrefView {
    pub kind: Seq<char>,
    pub gain: Gain,
}

/// The settings without their representation.
pub struct SettingsView {
    pub sources: Seq<PrefView>,
    pub hotkey: Option<Seq<char>>,
    pub capture_visible: bool,
}

impl View for AudioSourcePref {
    type V = PrefView;

    open spec fn view(&self) -> PrefView {
        PrefView { kind: self.kind@, gain: self.gain }
    }
}

/// The sources of a list.
pub open spec fn pref_views(list: Seq<AudioSourcePref>) -> Seq<PrefView> {
    list.map_values(|p: AudioSourcePref| p@)
}

impl View for AppSettings {
    type V = SettingsView;

    open spec fn view(&self) -> SettingsView {
        SettingsView {
            sources: pref_views(self.audio_sources@),
            hotkey: match self.hotkey {
                Some(h) => Some(h@),
                None => None,
            },
            capture_visible: self.capture_visible,
        }
    }
}

/// The sound of the system, unchanged.
pub open spec fn default_source() -> PrefView {
    PrefView { kind: "system"@, gain: Gain(ONE_BITS) }
}

pub open spec fn default_settings() -> SettingsView {
    SettingsView {
        sources: seq![default_source()],
        hotkey: Some("Ctrl+Alt+R"@),
        capture_visible: false,
    }
}

pub fn default_hotkey() -> (r: Option<String>)
    ensures
        r matches Some(h) && h@ == "Ctrl+Alt+R"@,
{
    Some(String::from_str("Ctrl+Alt+R"))
}

fn system_source() -> (p: AudioSourcePref)
    ensures
        p@ == default_source(),
{
    AudioSourcePref { kind: String::from_str("system"), gain: Gain(ONE_BITS) }
}

impl Default for AppSettings {
    fn default() -> (s: AppSettings)
        ensures
            s@ == default_settings(),
    {
        let s: AppSettings = AppSettings {
            audio_sources: vec![system_source()],
            hotkey: default_hotkey(),
            capture_visible: false,
        };
        assert(s@.sources =~= default_settings().sources);
        s
    }
}

/// A kind that can be recorded.
pub open spec fn known_kind(kind: Seq<char>) -> bool {
    kind == "system"@ || kind == "microphone"@
}

/// A kind is in the list.
pub open spec fn has_kind(list: Seq<PrefView>, kind: Seq<char>) -> bool {
    exists|i: int| 0 <= i < list.len() && (#[trigger] list[i]).kind == kind
}

/// A source of the list in its proper form: kind without white space and in lower case, gain
/// within its limits.
pub open spec fn proper(p: PrefView) -> PrefView {
    PrefView { kind: lower(trimmed(p.kind)), gain: gain_within(p.gain) }
}

/// The proper sources of a list: of every known kind the first.
pub open spec fn proper_sources(list: Seq<PrefView>) -> Seq<PrefView>
    decreases list.len(),
{
    if list.len() == 0 {
        Seq::empty()
    } else {
        let earlier = proper_sources(list.drop_last());
        let p = proper(list.last());
        if known_kind(p.kind) && !has_kind(earlier, p.kind) {
            earlier.push(p)
        } else {
            earlier
        }
    }
}

/// The hot key in its proper form; a blank one is switched off.
pub open spec fn proper_hotkey(h: Option<Seq<char>>) -> Option<Seq<char>> {
    match h {
        Some(s) if trimmed(s).len() > 0 => Some(trimmed(s)),
        _ => None,
    }
}

/// Settings in their proper form. Where no source remains the sound of the system is recorded:
/// a recording without any sound is never meant.
pub open spec fn proper_settings(s: SettingsView) -> SettingsView {
    let sources = proper_sources(s.sources);
    SettingsView {
        sources: if sources.len() == 0 {
            seq![default_source()]
        } else {
            sources
        },
        hotkey: proper_hotkey(s.hotkey),
        capture_visible: s.capture_visible,
    }
}

fn contains_kind(list: &Vec<AudioSourcePref>, kind: &String) -> (r: bool)
    ensures
        r == has_kind(pref_views(list@), kind@),
{
    let mut i: usize = 0;
    while i < list.len()
        invariant
            i <= list.len(),
            forall|j: int| 0 <= j < i ==> (#[trigger] list@[j]).kind@ != kind@,
        decreases list.len() - i,
    {
        if list[i].kind == *kind {
            assert(pref_views(list@)[i as int].kind == kind@);
            return true;
        }
        i = i + 1;
    }
    assert forall|j: int| 0 <= j < pref_views(list@).len() implies (#[trigger] pref_views(
        list@,
    )[j]).kind != kind@ by {
        assert(list@[j].kind@ != kind@);
    }
    false
}

fn clean_sources(list: &Vec<AudioSourcePref>) -> (clean: Vec<AudioSourcePref>)
    ensures
        pref_views(clean@) == proper_sources(pref_views(list@)),
{
    let mut clean: Vec<AudioSourcePref> = Vec::new();
    let mut i: usize = 0;
    assert(pref_views(clean@) =~= proper_sources(pref_views(list@).take(0)));
    while i < list.len()
        invariant
            i <= list.len(),
            pref_views(clean@) == proper_sources(pref_views(list@).take(i as int)),
        decreases list.len() - i,
    {
        let ghost upto = pref_views(list@).take(i + 1);
        let ghost before = pref_views(clean@);
        assert(upto.drop_last() =~= pref_views(list@).take(i as int));
        assert(upto.last() == list@[i as int]@);
        let bare: String = trim(list[i].kind.as_str());
        let kind: String = to_lower(bare.as_str());
        if (same_text(kind.as_str(), "system") || same_text(kind.as_str(), "microphone"))
            && !contains_kind(&clean, &kind) {
            clean.push(AudioSourcePref { kind, gain: clamp_gain(list[i].gain) });
            assert(pref_views(clean@) =~= before.push(proper(upto.last())));
        }
        i = i + 1;
    }
    assert(pref_views(list@).take(i as int) =~= pref_views(list@));
    clean
}

impl AppSettings {
    /// The settings in their proper form.
    pub fn normalized(self) -> (r: AppSettings)
        ensures
            r@ == proper_settings(self@),
    {
        let mut clean: Vec<AudioSourcePref> = clean_sources(&self.audio_sources);
        if clean.len() == 0 {
            assert(pref_views(clean@).len() == 0);
            clean.push(system_source());
            assert(pref_views(clean@) =~= seq![default_source()]);
        } else {
            assert(pref_views(clean@).len() > 0);
        }
        let hotkey: Option<String> = match self.hotkey {
            Some(h) => {
                let key: String = trim(h.as_str());
                if key.as_str().is_empty() {
                    None
                } else {
                    Some(key)
                }
            },
            None => None,
        };
        AppSettings { audio_sources: clean, hotkey, capture_visible: self.capture_visible }
    }
}

/// Two gains are the same number. What is not a number differs from everything, and both zeros
/// are the same.
pub open spec fn same_number(a: Gain, b: Gain) -> bool {
    &&& !is_nan(a.0)
    &&& !is_nan(b.0)
    &&& a == b || (magnitude(a.0) == 0 && magnitude(b.0) == 0)
}

fn equal_gains(a: Gain, b: Gain) -> (r: bool)
    ensures
        r == same_number(a, b),
{
    let left: u32 = a.0 % SIGN_BIT;
    let right: u32 = b.0 % SIGN_BIT;
    left <= INFINITY_BITS && right <= INFINITY_BITS && (a.0 == b.0 || (left == 0 && right == 0))
}

/// Two settings say the same.
pub open spec fn same_settings(a: SettingsView, b: SettingsView) -> bool {
    &&& a.sources.len() == b.sources.len()
    &&& forall|i: int|
        0 <= i < a.sources.len() ==> (#[trigger] a.sources[i]).kind == b.sources[i].kind
            && same_number(a.sources[i].gain, b.sources[i].gain)
    &&& a.hotkey == b.hotkey
    &&& a.capture_visible == b.capture_visible
}

/// Compares two settings.
pub fn equal_settings(a: &AppSettings, b: &AppSettings) -> (r: bool)
    ensures
        r == same_settings(a@, b@),
{
    if a.audio_sources.len() != b.audio_sources.len() {
        assert(a@.sources.len() != b@.sources.len());
        return false;
    }
    let mut i: usize = 0;
    while i < a.audio_sources.len()
        invariant
            i <= a.audio_sources.len(),
            a.audio_sources.len() == b.audio_sources.len(),
            forall|j: int|
                0 <= j < i ==> (#[trigger] a@.sources[j]).kind == b@.sources[j].kind
                    && same_number(a@.sources[j].gain, b@.sources[j].gain),
        decreases a.audio_sources.len() - i,
    {
        let left: &AudioSourcePref = &a.audio_sources[i];
        let right: &AudioSourcePref = &b.audio_sources[i];
        assert(a@.sources[i as int] == left@);
        assert(b@.sources[i as int] == right@);
        if left.kind != right.kind || !equal_gains(left.gain, right.gain) {
            return false;
        }
        i = i + 1;
    }
    let same_key: bool = match (&a.hotkey, &b.hotkey) {
        (Some(x), Some(y)) => *x == *y,
        (None, None) => true,
        _ => false,
    };
    same_key && a.capture_visible == b.capture_visible
}

/// Mark that some editors put in front of a text.
pub open spec fn byte_order_mark() -> char {
    '\u{feff}'
}

/// `s` without marks in front.
pub open spec fn without_marks(s: Seq<char>) -> Seq<char>
    decreases s.len(),
{
    if s.len() > 0 && s[0] == byte_order_mark() {
        without_marks(s.drop_first())
    } else {
        s
    }
}

/// The text of a settings file, without what an editor may have put in front of it.
pub fn settings_text(text: &str) -> (r: String)
    ensures
        r@ == without_marks(text@),
{
    let chars: Vec<char> = chars_of(text);
    let mut from: usize = 0;
    assert(chars@.skip(0) =~= text@);
    while from < chars.len() && chars[from] == '\u{feff}'
        invariant
            from <= chars.len(),
            without_marks(text@) == without_marks(chars@.skip(from as int)),
        decreases chars.len() - from,
    {
        assert(chars@.skip(from as int).drop_first() =~= chars@.skip(from + 1));
        assert(chars@.skip(from as int)[0] == byte_order_mark());
        from = from + 1;
    }
    assert(without_marks(text@) == chars@.skip(from as int));
    assert(chars@.skip(from as int) =~= chars@.subrange(from as int, chars@.len() as int));
    text_of(&chars, from, chars.len())
}

/// What came of reading the settings file.
#[derive(Debug)]
pub enum SettingsFile {
    /// There is none, or it cannot be read.
    Missing,
    /// It holds something else.
    Damaged,
    Read(AppSettings),
}

/// The settings to go on with.
#[derive(Debug)]
pub struct Loaded {
    pub settings: AppSettings,
    /// The file held values that were put right.
    pub corrected: bool,
    /// The file has to be put aside: the defaults will be written in its place, and what the
    /// user wrote would be lost.
    pub put_aside: bool,
}

/// The settings that a file gives: those in it, in their proper form, or the defaults.
pub fn load_settings(file: SettingsFile) -> (r: Loaded)
    ensures
        match file {
            SettingsFile::Read(s) => {
                &&& r.settings@ == proper_settings(s@)
                &&& r.corrected == !same_settings(proper_settings(s@), s@)
                &&& !r.put_aside
            },
            _ => {
                &&& r.settings@ == default_settings()
                &&& !r.corrected
                &&& r.put_aside == (file is Damaged)
            },
        },
{
    match file {
        SettingsFile::Missing => Loaded {
            settings: AppSettings::default(),
            corrected: false,
            put_aside: false,
        },
        SettingsFile::Damaged => Loaded {
            settings: AppSettings::default(),
            corrected: false,
            put_aside: true,
        },
        SettingsFile::Read(s) => {
            let copy: AppSettings = copy_settings(&s);
            let settings: AppSettings = copy.normalized();
            let corrected: bool = !equal_settings(&settings, &s);
            Loaded { settings, corrected, put_aside: false }
        },
    }
}

fn copy_settings(s: &AppSettings) -> (r: AppSettings)
    ensures
        r@ == s@,
{
    let mut sources: Vec<AudioSourcePref> = Vec::new();
    let mut i: usize = 0;
    while i < s.audio_sources.len()
        invariant
            i <= s.audio_sources.len(),
            pref_views(sources@) =~= s@.sources.take(i as int),
        decreases s.audio_sources.len() - i,
    {
        let p: &AudioSourcePref = &s.audio_sources[i];
        let ghost before = pref_views(sources@);
        sources.push(AudioSourcePref { kind: p.kind.clone(), gain: p.gain });
        assert(pref_views(sources@) =~= before.push(p@));
        i = i + 1;
    }
    assert(s@.sources.take(i as int) =~= s@.sources);
    let hotkey: Option<String> = match &s.hotkey {
        Some(h) => Some(h.clone()),
        None => None,
    };
    AppSettings { audio_sources: sources, hotkey, capture_visible: s.capture_visible }
}

/// The file name extension under which a damaged file is put aside, `secs` after the epoch.
pub fn aside_extension(secs: u64) -> (s: String)
    ensures
        s@ == "bad-"@ + decimal(secs as nat),
{
    let mut s: String = String::from_str("bad-");
    push_decimal(&mut s, secs);
    s
}

proof fn lemma_known_kinds_are_proper(kind: Seq<char>)
    requires
        known_kind(kind),
    ensures
        lower(trimmed(kind)) == kind,
{
    reveal_strlit("system");
    reveal_strlit("microphone");
    lemma_trim_of_solid(kind);
    assert forall|i: int| 0 <= i < kind.len() implies lower_char(#[trigger] kind[i]) == kind[i] by {
    }
    assert(lower(kind) =~= kind);
}

/// The sources of proper settings: known kinds, no kind twice, gains within their limits.
pub open spec fn sound_choice(list: Seq<PrefView>) -> bool {
    &&& forall|i: int|
        0 <= i < list.len() ==> known_kind((#[trigger] list[i]).kind) && gain_in_range(list[i].gain)
    &&& forall|i: int, j: int|
        0 <= i < j < list.len() ==> (#[trigger] list[i]).kind != (#[trigger] list[j]).kind
}

proof fn lemma_proper_sources_are_sound(list: Seq<PrefView>)
    ensures
        sound_choice(proper_sources(list)),
    decreases list.len(),
{
    if list.len() > 0 {
        lemma_proper_sources_are_sound(list.drop_last());
    }
}

proof fn lemma_sound_choice_is_kept(list: Seq<PrefView>)
    requires
        sound_choice(list),
    ensures
        proper_sources(list) == list,
    decreases list.len(),
{
    if list.len() > 0 {
        let init = list.drop_last();
        let last = list[list.len() - 1];
        assert(sound_choice(init)) by {
            assert forall|i: int| 0 <= i < init.len() implies known_kind((#[trigger] init[i]).kind)
                && gain_in_range(init[i].gain) by {
                assert(init[i] == list[i]);
            }
            assert forall|i: int, j: int| 0 <= i < j < init.len() implies (#[trigger] init[i]).kind
                != (#[trigger] init[j]).kind by {
                assert(init[i] == list[i] && init[j] == list[j]);
            }
        }
        lemma_sound_choice_is_kept(init);
        lemma_known_kinds_are_proper(last.kind);
        assert(proper(last) == last);
        assert(!has_kind(init, last.kind)) by {
            assert forall|i: int| 0 <= i < init.len() implies (#[trigger] init[i]).kind
                != last.kind by {
                assert(init[i] == list[i]);
            }
        }
        assert(init.push(last) =~= list);
    } else {
        assert(list =~= Seq::<PrefView>::empty());
    }
}

/// Proper settings can be used as they stand: there is a source, at most one of either kind, all
/// gains lie within their limits, and the hot key is not blank.
pub proof fn law_proper_settings_are_usable(s: SettingsView)
    ensures
        sound_choice(proper_settings(s).sources),
        1 <= proper_settings(s).sources.len() <= 2,
        proper_settings(s).hotkey matches Some(h) ==> h.len() > 0,
{
    let list = proper_settings(s).sources;
    lemma_proper_sources_are_sound(s.sources);
    if list.len() > 2 {
        assert(list[0].kind != list[1].kind);
        assert(list[0].kind != list[2].kind);
        assert(list[1].kind != list[2].kind);
    }
}

/// Putting settings into their proper form twice is doing it once.
pub proof fn law_proper_form_is_idempotent(s: SettingsView)
    ensures
        proper_settings(proper_settings(s)) == proper_settings(s),
{
    let once = proper_settings(s);
    law_proper_settings_are_usable(s);
    lemma_sound_choice_is_kept(once.sources);
    match s.hotkey {
        Some(h) => {
            lemma_trimmed_is_idempotent(h);
        },
        None => {},
    }
}

/// A hot key that is switched off stays off: the default does not come back.
pub proof fn law_disabled_hotkey_stays_disabled(s: SettingsView)
    requires
        s.hotkey is None,
    ensures
        proper_settings(s).hotkey is None,
{
}

/// The first source of a kind counts: one more source is taken behind the others where its kind is
/// known and new, in its proper form, and changes nothing otherwise.
pub proof fn law_first_source_of_a_kind_counts(list: Seq<PrefView>, p: PrefView)
    ensures
        ({
            let before = proper_sources(list);
            let after = proper_sources(list.push(p));
            let kind = lower(trimmed(p.kind));
            let fresh = (kind == "system"@ || kind == "microphone"@) && forall|i: int|
                0 <= i < before.len() ==> (#[trigger] before[i]).kind != kind;
            &&& fresh ==> {
                &&& after.len() == before.len() + 1
                &&& after.take(before.len() as int) == before
                &&& after.last().kind == kind
                &&& after.last().gain == gain_within(p.gain)
            }
            &&& !fresh ==> after == before
        }),
{
    assert(list.push(p).drop_last() =~= list);
    let before = proper_sources(list);
    let kind = lower(trimmed(p.kind));
    assert(has_kind(before, kind) <==> exists|i: int|
        0 <= i < before.len() && (#[trigger] before[i]).kind == kind);
    assert(before.push(proper(p)).take(before.len() as int) =~= before);
}

/// A hot key is kept without the white space around it, a blank one is switched off, and what
/// captures show is left as it is.
pub proof fn law_hotkeys_are_trimmed(s: SettingsView)
    ensures
        s.hotkey matches Some(h) ==> trimmed(h).len() > 0 ==> proper_settings(s).hotkey == Some(
            trimmed(h),
        ),
        s.hotkey matches Some(h) ==> trimmed(h).len() == 0 ==> proper_settings(s).hotkey is None,
        proper_settings(s).capture_visible == s.capture_visible,
        proper_sources(s.sources).len() > 0 ==> proper_settings(s).sources == proper_sources(
            s.sources,
        ),
        proper_sources(s.sources).len() == 0 ==> proper_settings(s).sources.len() == 1
            && proper_settings(s).sources[0].kind == "system"@
            && proper_settings(s).sources[0].gain.0 == 0x3f80_0000,
{
}

/// Settings are the same where nothing in them differs: the sources and their gains one by one,
/// the hot key, and what captures show.
pub proof fn law_any_difference_is_seen(a: SettingsView, b: SettingsView, i: int)
    ensures
        same_settings(a, b) ==> a.sources.len() == b.sources.len() && a.hotkey == b.hotkey
            && a.capture_visible == b.capture_visible,
        same_settings(a, b) && 0 <= i < a.sources.len() ==> a.sources[i].kind == b.sources[i].kind
            && (a.sources[i].gain == b.sources[i].gain || magnitude(a.sources[i].gain.0) == 0),
        (forall|j: int| 0 <= j < a.sources.len() ==> !is_nan((#[trigger] a.sources[j]).gain.0))
            ==> same_settings(a, a),
        same_settings(a, b) ==> same_settings(b, a),
{
}

/// Marks in front of a text are left out, all of them and nothing else.
pub proof fn law_only_leading_marks_are_left_out(s: Seq<char>)
    ensures
        ({
            let k = s.len() - without_marks(s).len();
            &&& 0 <= k <= s.len()
            &&& without_marks(s) == s.skip(k)
            &&& forall|i: int| 0 <= i < k ==> s[i] == '\u{feff}'
            &&& k < s.len() ==> s[k] != '\u{feff}'
        }),
    decreases s.len(),
{
    if s.len() > 0 && s[0] == byte_order_mark() {
        let rest = s.drop_first();
        law_only_leading_marks_are_left_out(rest);
        let k = s.len() - without_marks(s).len();
        assert(rest.skip(k - 1) =~= s.skip(k));
        assert forall|i: int| 0 <= i < k implies s[i] == '\u{feff}' by {
            if i > 0 {
                assert(rest[i - 1] == s[i]);
            }
        }
        if k < s.len() {
            assert(rest[k - 1] == s[k]);
        }
    } else {
        assert(s.skip(0) =~= s);
    }
}

} // verus!
