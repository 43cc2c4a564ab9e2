//! Displays: what three sources of the system say about them, joined by device name.
//!
//! The identity of a display comes from the display configuration. A number in the order of
//! enumeration would change with the cables.

use crate::error::{MediaError, MediaResult};
use crate::text::{
    chars_of, decimal, fixed_hex, push_decimal, push_fixed_hex, same_text, text_of, to_upper,
    up_to_zero, upper, utf16_text, wide_to_string,
};
use vstd::prelude::*;

verus! {

/// A display that can be recorded.
#[derive(Debug)]
pub struct DisplayInfo {
    /// Stable identity: adapter and target.
    pub id: String,
    /// Device name, such as `\\.\DISPLAY1`.
    pub device_name: String,
    pub friendly_name: String,
    /// Size for display purposes; the capture size is another one where the desktop is scaled.
    pub width: u32,
    pub height: u32,
    pub x: i32,
    pub y: i32,
    pub primary: bool,
    /// HDR mode; such a display is not recorded.
    pub hdr: bool,
}

/// A device name.
#[derive(Debug)]
pub struct GdiDeviceName(pub String);

impl GdiDeviceName {
    pub fn as_str(&self) -> (s: &str)
        ensures
            s@ == self.0@,
    {
        self.0.as_str()
    }
}

/// A monitor as it is enumerated.
#[derive(Debug)]
pub struct GdiMonitor {
    pub device_name: String,
    pub x: i32,
    pub y: i32,
    pub width: u32,
    pub height: u32,
    pub primary: bool,
}

/// Flag of the primary monitor.
pub const MONITOR_PRIMARY: u32 = 1;

/// A length that is never negative.
pub open spec fn extent(from: i32, to: i32) -> u32 {
    if to > from {
        (to - from) as u32
    } else {
        0
    }
}

fn extent_of(from: i32, to: i32) -> (n: u32)
    ensures
        n == extent(from, to),
{
    if to > from {
        (to as i64 - from as i64) as u32
    } else {
        0
    }
}

/// The entry of a monitor, from the rectangle and the flags that the system reports.
pub fn gdi_monitor(
    name: &[u16],
    left: i32,
    top: i32,
    right: i32,
    bottom: i32,
    flags: u32,
) -> (m: GdiMonitor)
    ensures
        m.device_name@ == utf16_text(up_to_zero(name@)),
        m.x == left,
        m.y == top,
        m.width == extent(left, right),
        m.height == extent(top, bottom),
        m.primary == (flags & MONITOR_PRIMARY != 0),
{
    GdiMonitor {
        device_name: wide_to_string(name),
        x: left,
        y: top,
        width: extent_of(left, right),
        height: extent_of(top, bottom),
        primary: flags & MONITOR_PRIMARY != 0,
    }
}

/// An entry of the display configuration.
#[derive(Debug)]
pub struct ConfigEntry {
    pub gdi_device_name: String,
    pub stable_id: String,
    pub friendly_name: String,
}

/// The bit pattern of the upper half of an adapter's identity.
pub open spec fn high_part(v: i32) -> nat {
    if v < 0 {
        (v + 0x1_0000_0000) as nat
    } else {
        v as nat
    }
}

/// The identity of a display: the adapter in sixteen hexadecimal digits and the target's number.
pub open spec fn stable_id_text(luid_high: i32, luid_low: u32, target: u32) -> Seq<char> {
    fixed_hex(high_part(luid_high), 8) + fixed_hex(luid_low as nat, 8) + ":"@ + decimal(
        target as nat,
    )
}

pub fn stable_id(luid_high: i32, luid_low: u32, target: u32) -> (s: String)
    ensures
        s@ == stable_id_text(luid_high, luid_low, target),
{
    let high: u64 = if luid_high < 0 {
        (luid_high as i64 + 0x1_0000_0000) as u64
    } else {
        luid_high as u64
    };
    let mut s: String = String::new();
    push_fixed_hex(&mut s, high, 8);
    push_fixed_hex(&mut s, luid_low as u64, 8);
    s.append(":");
    push_decimal(&mut s, target as u64);
    assert(s@ =~= stable_id_text(luid_high, luid_low, target));
    s
}

/// An entry of the display configuration, from the names and numbers that the system reports.
pub fn config_entry(
    source_name: &[u16],
    target_name: &[u16],
    luid_high: i32,
    luid_low: u32,
    target: u32,
) -> (c: ConfigEntry)
    ensures
        c.gdi_device_name@ == utf16_text(up_to_zero(source_name@)),
        c.friendly_name@ == utf16_text(up_to_zero(target_name@)),
        c.stable_id@ == stable_id_text(luid_high, luid_low, target),
{
    ConfigEntry {
        gdi_device_name: wide_to_string(source_name),
        stable_id: stable_id(luid_high, luid_low, target),
        friendly_name: wide_to_string(target_name),
    }
}

/// A colour space of HDR or advanced colour.
pub fn is_hdr_color_space(color_space: i32) -> (r: bool)
    ensures
        r == (color_space == 12 || color_space == 14 || color_space == 17),
{
    color_space == 12 || color_space == 14 || color_space == 17
}

/// `s` without any number of leading copies of a prefix of four characters, two backslashes,
/// `mark` and a backslash.
pub open spec fn without_prefix(s: Seq<char>, mark: char) -> Seq<char>
    decreases s.len(),
{
    if s.len() >= 4 && s[0] == '\\' && s[1] == '\\' && s[2] == mark && s[3] == '\\' {
        without_prefix(s.skip(4), mark)
    } else {
        s
    }
}

/// A device name as it is compared: without prefixes, in upper case.
pub open spec fn normalized(name: Seq<char>) -> Seq<char> {
    upper(without_prefix(without_prefix(name, '.'), '?'))
}

fn skip_prefix(chars: &Vec<char>, from: usize, mark: char) -> (r: usize)
    requires
        from <= chars.len(),
    ensures
        from <= r <= chars.len(),
        chars@.skip(r as int) == without_prefix(chars@.skip(from as int), mark),
{
    let mut at: usize = from;
    while chars.len() - at >= 4 && chars[at] == '\\' && chars[at + 1] == '\\' && chars[at + 2]
        == mark && chars[at + 3] == '\\'
        invariant
            from <= at <= chars.len(),
            without_prefix(chars@.skip(at as int), mark) == without_prefix(
                chars@.skip(from as int),
                mark,
            ),
        decreases chars.len() - at,
    {
        assert(chars@.skip(at as int).skip(4) =~= chars@.skip(at + 4));
        at = at + 4;
    }
    at
}

/// Different parts of the system spell the prefix and the case of a device name differently.
pub fn normalize_gdi(name: &str) -> (s: String)
    ensures
        s@ == normalized(name@),
{
    let chars: Vec<char> = chars_of(name);
    assert(chars@.skip(0) =~= name@);
    let first: usize = skip_prefix(&chars, 0, '.');
    let second: usize = skip_prefix(&chars, first, '?');
    let rest: String = text_of(&chars, second, chars.len());
    assert(rest@ =~= chars@.skip(second as int));
    to_upper(rest.as_str())
}

/// A prefix in front of a device name does not change which display it means.
pub proof fn law_device_prefix_does_not_matter(name: Seq<char>)
    ensures
        normalized(seq!['\\', '\\', '.', '\\'] + name) == normalized(name),
{
    let long = seq!['\\', '\\', '.', '\\'] + name;
    assert(long.skip(4) =~= name);
}

/// The first entry of the configuration for a device, or the number of entries.
pub open spec fn config_index(config: Seq<ConfigEntry>, key: Seq<char>) -> nat
    decreases config.len(),
{
    if config.len() == 0 || normalized(config[0].gdi_device_name@) == key {
        0
    } else {
        1 + config_index(config.skip(1), key)
    }
}

fn find_config(config: &Vec<ConfigEntry>, key: &str) -> (i: usize)
    ensures
        i == config_index(config@, key@),
        i <= config.len(),
{
    let mut i: usize = 0;
    assert(config@.skip(0) =~= config@);
    while i < config.len()
        invariant
            i <= config.len(),
            config_index(config@, key@) == i + config_index(config@.skip(i as int), key@),
        decreases config.len() - i,
    {
        let name: String = normalize_gdi(config[i].gdi_device_name.as_str());
        if same_text(name.as_str(), key) {
            return i;
        }
        assert(config@.skip(i as int).skip(1) =~= config@.skip(i + 1));
        i = i + 1;
    }
    i
}

/// Whether the first HDR entry for a device says so; a device without an entry is not HDR.
pub open spec fn hdr_of(list: Seq<(String, bool)>, key: Seq<char>) -> bool
    decreases list.len(),
{
    if list.len() == 0 {
        false
    } else if normalized(list[0].0@) == key {
        list[0].1
    } else {
        hdr_of(list.skip(1), key)
    }
}

fn find_hdr(list: &Vec<(String, bool)>, key: &str) -> (r: bool)
    ensures
        r == hdr_of(list@, key@),
{
    let mut i: usize = 0;
    assert(list@.skip(0) =~= list@);
    while i < list.len()
        invariant
            i <= list.len(),
            hdr_of(list@, key@) == hdr_of(list@.skip(i as int), key@),
        decreases list.len() - i,
    {
        let name: String = normalize_gdi(list[i].0.as_str());
        if same_text(name.as_str(), key) {
            return list[i].1;
        }
        assert(list@.skip(i as int).skip(1) =~= list@.skip(i + 1));
        i = i + 1;
    }
    false
}

/// `d` is what the three sources say about the monitor. A monitor that the configuration does not
/// know gets an identity from its device name.
pub open spec fn describes(
    d: DisplayInfo,
    m: GdiMonitor,
    config: Seq<ConfigEntry>,
    hdr: Seq<(String, bool)>,
) -> bool {
    let key = normalized(m.device_name@);
    let i = config_index(config, key) as int;
    &&& d.device_name@ == m.device_name@
    &&& d.x == m.x
    &&& d.y == m.y
    &&& d.width == m.width
    &&& d.height == m.height
    &&& d.primary == m.primary
    &&& d.hdr == hdr_of(hdr, key)
    &&& if i < config.len() {
        d.id@ == config[i].stable_id@ && d.friendly_name@ == config[i].friendly_name@
    } else {
        d.id@ == "gdi:"@ + m.device_name@ && d.friendly_name@.len() == 0
    }
}

/// The displays of the machine, in the order of the monitors.
pub fn list_displays(
    monitors: &Vec<GdiMonitor>,
    config: &Vec<ConfigEntry>,
    hdr: &Vec<(String, bool)>,
) -> (out: Vec<DisplayInfo>)
    ensures
        out.len() == monitors.len(),
        forall|i: int|
            0 <= i < out.len() ==> describes(
                #[trigger] out@[i],
                monitors@[i],
                config@,
                hdr@,
            ),
{
    let mut out: Vec<DisplayInfo> = Vec::new();
    let mut i: usize = 0;
    while i < monitors.len()
        invariant
            i <= monitors.len(),
            out.len() == i,
            forall|j: int|
                0 <= j < i ==> describes(#[trigger] out@[j], monitors@[j], config@, hdr@),
        decreases monitors.len() - i,
    {
        let m: &GdiMonitor = &monitors[i];
        let key: String = normalize_gdi(m.device_name.as_str());
        let at: usize = find_config(config, key.as_str());
        let id: String = if at < config.len() {
            config[at].stable_id.clone()
        } else {
            String::from_str("gdi:").concat(m.device_name.as_str())
        };
        let friendly_name: String = if at < config.len() {
            config[at].friendly_name.clone()
        } else {
            String::new()
        };
        out.push(
            DisplayInfo {
                id,
                device_name: m.device_name.clone(),
                friendly_name,
                width: m.width,
                height: m.height,
                x: m.x,
                y: m.y,
                primary: m.primary,
                hdr: find_hdr(hdr, key.as_str()),
            },
        );
        i = i + 1;
    }
    out
}

/// The display has this identity and none before it does.
pub open spec fn first_with_id(displays: Seq<DisplayInfo>, id: Seq<char>, i: int) -> bool {
    &&& 0 <= i < displays.len()
    &&& displays[i].id@ == id
    &&& forall|j: int| 0 <= j < i ==> (#[trigger] displays[j]).id@ != id
}

/// The monitor carries this device name and none before it does.
pub open spec fn first_with_name(monitors: Seq<GdiMonitor>, name: Seq<char>, i: int) -> bool {
    &&& 0 <= i < monitors.len()
    &&& normalized(monitors[i].device_name@) == normalized(name)
    &&& forall|j: int|
        0 <= j < i ==> normalized((#[trigger] monitors[j]).device_name@) != normalized(name)
}

fn position_of_id(displays: &Vec<DisplayInfo>, id: &str) -> (r: Option<usize>)
    ensures
        r matches Some(i) ==> first_with_id(displays@, id@, i as int),
        r is None ==> forall|j: int| 0 <= j < displays.len() ==> (#[trigger] displays@[j]).id@ != id@,
{
    let mut i: usize = 0;
    while i < displays.len()
        invariant
            i <= displays.len(),
            forall|j: int| 0 <= j < i ==> (#[trigger] displays@[j]).id@ != id@,
        decreases displays.len() - i,
    {
        if same_text(displays[i].id.as_str(), id) {
            return Some(i);
        }
        i = i + 1;
    }
    None
}

fn position_of_name(monitors: &Vec<GdiMonitor>, name: &str) -> (r: Option<usize>)
    ensures
        r matches Some(i) ==> first_with_name(monitors@, name@, i as int),
        r is None ==> forall|j: int|
            0 <= j < monitors.len() ==> normalized((#[trigger] monitors@[j]).device_name@)
                != normalized(name@),
{
    let key: String = normalize_gdi(name);
    let mut i: usize = 0;
    while i < monitors.len()
        invariant
            i <= monitors.len(),
            key@ == normalized(name@),
            forall|j: int|
                0 <= j < i ==> normalized((#[trigger] monitors@[j]).device_name@) != normalized(
                    name@,
                ),
        decreases monitors.len() - i,
    {
        let other: String = normalize_gdi(monitors[i].device_name.as_str());
        if same_text(other.as_str(), key.as_str()) {
            return Some(i);
        }
        i = i + 1;
    }
    None
}

/// Finds a display by its identity, and the monitor that belongs to it. A display that is gone is
/// an error: another one is never recorded in its place.
pub fn resolve_display(id: &str, displays: &Vec<DisplayInfo>, monitors: &Vec<GdiMonitor>) -> (r:
    MediaResult<(usize, usize)>)
    ensures
        r matches Ok((d, m)) ==> first_with_id(displays@, id@, d as int) && first_with_name(
            monitors@,
            displays@[d as int].device_name@,
            m as int,
        ),
        r matches Err(e) ==> {
            &&& e matches MediaError::DisplayNotFound { display_id } && display_id@ == id@
            &&& forall|d: int, m: int|
                !(#[trigger] first_with_id(displays@, id@, d) && #[trigger] first_with_name(
                    monitors@,
                    displays@[d].device_name@,
                    m,
                ))
        },
{
    match position_of_id(displays, id) {
        None => Err(MediaError::DisplayNotFound { display_id: id.to_owned() }),
        Some(d) => match position_of_name(monitors, displays[d].device_name.as_str()) {
            None => {
                assert forall|x: int, m: int|
                    !(#[trigger] first_with_id(displays@, id@, x) && #[trigger] first_with_name(
                        monitors@,
                        displays@[x].device_name@,
                        m,
                    )) by {
                    if first_with_id(displays@, id@, x) && x != d {
                        if x < d {
                            assert(displays@[x].id@ != id@);
                        } else {
                            assert(displays@[d as int].id@ != id@);
                        }
                    }
                }
                Err(MediaError::DisplayNotFound { display_id: id.to_owned() })
            },
            Some(m) => Ok((d, m)),
        },
    }
}

/// The identity of the primary display, for a first choice.
pub fn primary_display_id(displays: &Vec<DisplayInfo>) -> (r: Option<String>)
    ensures
        r matches Some(id) ==> exists|i: int|
            0 <= i < displays.len() && (#[trigger] displays@[i]).primary && displays@[i].id@ == id@
                && forall|j: int| 0 <= j < i ==> !(#[trigger] displays@[j]).primary,
        r is None ==> forall|j: int| 0 <= j < displays.len() ==> !(#[trigger] displays@[j]).primary,
{
    let mut i: usize = 0;
    while i < displays.len()
        invariant
            i <= displays.len(),
            forall|j: int| 0 <= j < i ==> !(#[trigger] displays@[j]).primary,
        decreases displays.len() - i,
    {
        if displays[i].primary {
            return Some(displays[i].id.clone());
        }
        i = i + 1;
    }
    None
}

/// A length is the distance of its ends where they are in order, and nothing otherwise.
pub proof fn law_lengths_are_distances(from: i32, to: i32)
    ensures
        to >= from ==> extent(from, to) == to - from,
        to < from ==> extent(from, to) == 0,
{
}

/// The identity of a display shows the upper and the lower half of the adapter's and the number of
/// the target, in this order; the halves have eight digits each.
pub proof fn law_identities_show_adapter_and_target(luid_high: i32, luid_low: u32, target: u32)
    ensures
        ({
            let id = stable_id_text(luid_high, luid_low, target);
            &&& id.len() == 17 + decimal(target as nat).len()
            &&& luid_high >= 0 ==> id.subrange(0, 8) == fixed_hex(luid_high as nat, 8)
            &&& luid_high < 0 ==> id.subrange(0, 8) == fixed_hex(
                (luid_high + 0x1_0000_0000) as nat,
                8,
            )
            &&& id.subrange(8, 16) == fixed_hex(luid_low as nat, 8)
            &&& id[16] == ':'
            &&& id.skip(17) == decimal(target as nat)
        }),
{
    let id = stable_id_text(luid_high, luid_low, target);
    reveal_strlit(":");
    crate::text::law_fixed_width_is_kept(high_part(luid_high), 8);
    crate::text::law_fixed_width_is_kept(luid_low as nat, 8);
    assert(id.subrange(0, 8) =~= fixed_hex(high_part(luid_high), 8));
    assert(id.subrange(8, 16) =~= fixed_hex(luid_low as nat, 8));
    assert(id.skip(17) =~= decimal(target as nat));
}

/// A name without a prefix is compared in upper case, as a whole; the other prefix of device names
/// does not matter either.
pub proof fn law_names_are_compared_in_upper_case(name: Seq<char>)
    ensures
        name.len() == 0 || name[0] != '\\' ==> normalized(name) == upper(name),
        name.len() == 0 || name[0] != '\\' ==> normalized(seq!['\\', '\\', '?', '\\'] + name)
            == upper(name),
        name.len() == 0 || name[0] != '\\' ==> normalized(seq!['\\', '\\', '.', '\\'] + name)
            == upper(name),
{
    if name.len() == 0 || name[0] != '\\' {
        let long = seq!['\\', '\\', '?', '\\'] + name;
        assert(long.skip(4) =~= name);
        assert(without_prefix(name, '.') == name);
        assert(without_prefix(name, '?') == name);
        assert(without_prefix(long, '.') == long);
        assert(without_prefix(long, '?') == name);
        law_device_prefix_does_not_matter(name);
    }
}

/// The entry that is found is the first one for the device; without any the search ends behind the
/// last.
pub proof fn law_first_entry_counts(config: Seq<ConfigEntry>, key: Seq<char>)
    ensures
        config_index(config, key) <= config.len(),
        forall|j: int|
            0 <= j < config_index(config, key) ==> normalized(
                (#[trigger] config[j]).gdi_device_name@,
            ) != key,
        config_index(config, key) < config.len() ==> normalized(
            config[config_index(config, key) as int].gdi_device_name@,
        ) == key,
    decreases config.len(),
{
    if config.len() > 0 && normalized(config[0].gdi_device_name@) != key {
        let rest = config.skip(1);
        law_first_entry_counts(rest, key);
        assert forall|j: int| 0 <= j < config_index(config, key) implies normalized(
            (#[trigger] config[j]).gdi_device_name@,
        ) != key by {
            if j > 0 {
                assert(rest[j - 1] == config[j]);
            }
        }
    }
}

/// A display is in HDR mode where the first entry for it says so.
pub proof fn law_first_hdr_entry_counts(list: Seq<(String, bool)>, key: Seq<char>, i: int)
    ensures
        0 <= i < list.len() && normalized(list[i].0@) == key && (forall|j: int|
            0 <= j < i ==> normalized((#[trigger] list[j]).0@) != key) ==> hdr_of(list, key)
            == list[i].1,
        (forall|j: int| 0 <= j < list.len() ==> normalized((#[trigger] list[j]).0@) != key)
            ==> !hdr_of(list, key),
    decreases list.len(),
{
    if list.len() > 0 && normalized(list[0].0@) != key {
        let rest = list.skip(1);
        law_first_hdr_entry_counts(rest, key, i - 1);
        if forall|j: int| 0 <= j < list.len() ==> normalized((#[trigger] list[j]).0@) != key {
            assert forall|j: int| 0 <= j < rest.len() implies normalized((#[trigger] rest[j]).0@)
                != key by {
                assert(list[j + 1] == rest[j]);
            }
        }
        if 0 < i < list.len() && (forall|j: int|
            0 <= j < i ==> normalized((#[trigger] list[j]).0@) != key) {
            assert forall|j: int| 0 <= j < i - 1 implies normalized((#[trigger] rest[j]).0@)
                != key by {
                assert(list[j + 1] == rest[j]);
            }
        }
    }
}

/// A display lies where its monitor lies and is as large; its identity is the one that the
/// configuration gives to the same device.
pub proof fn law_displays_show_their_monitor(
    d: DisplayInfo,
    m: GdiMonitor,
    config: Seq<ConfigEntry>,
    hdr: Seq<(String, bool)>,
    i: int,
)
    requires
        describes(d, m, config, hdr),
    ensures
        d.device_name@ == m.device_name@,
        d.x == m.x && d.y == m.y,
        d.width == m.width && d.height == m.height,
        d.primary == m.primary,
        0 <= i < config.len() && normalized(config[i].gdi_device_name@) == normalized(
            m.device_name@,
        ) && (forall|j: int|
            0 <= j < i ==> normalized((#[trigger] config[j]).gdi_device_name@) != normalized(
                m.device_name@,
            )) ==> d.id@ == config[i].stable_id@ && d.friendly_name@ == config[i].friendly_name@,
        (forall|j: int|
            0 <= j < config.len() ==> normalized((#[trigger] config[j]).gdi_device_name@)
                != normalized(m.device_name@)) ==> d.id@ == "gdi:"@ + m.device_name@
            && d.friendly_name@.len() == 0,
{
    let key = normalized(m.device_name@);
    law_first_entry_counts(config, key);
    let at = config_index(config, key) as int;
    if 0 <= i < config.len() && normalized(config[i].gdi_device_name@) == key && (forall|j: int|
        0 <= j < i ==> normalized((#[trigger] config[j]).gdi_device_name@) != key) {
        if at < i {
            assert(normalized(config[at].gdi_device_name@) != key);
        }
        if i < at {
            assert(normalized(config[i].gdi_device_name@) != key);
        }
        assert(at == i);
    }
}

/// What is found by its identity or its name is the first that has it.
pub proof fn law_first_match_counts(
    displays: Seq<DisplayInfo>,
    id: Seq<char>,
    monitors: Seq<GdiMonitor>,
    name: Seq<char>,
    i: int,
    j: int,
)
    ensures
        first_with_id(displays, id, i) ==> 0 <= i < displays.len() && displays[i].id@ == id,
        first_with_id(displays, id, i) && 0 <= j < i ==> displays[j].id@ != id,
        first_with_name(monitors, name, i) ==> 0 <= i < monitors.len() && normalized(
            monitors[i].device_name@,
        ) == normalized(name),
        first_with_name(monitors, name, i) && 0 <= j < i ==> normalized(monitors[j].device_name@)
            != normalized(name),
{
}

} // verus!
