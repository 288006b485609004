use vstd::prelude::*;

verus! {

/// Device state flag: the display is attached to the desktop (active).
pub const DISPLAY_DEVICE_ATTACHED_TO_DESKTOP: u32 = 1;

/// Device state flag: the display is the primary device.
pub const DISPLAY_DEVICE_PRIMARY_DEVICE: u32 = 4;

/// One enumerated display device: identity, human label, and the two
/// flags the orchestrator decides by. Produced fresh on each
/// enumeration; never cached across orchestration steps.
#[derive(Clone, Debug)]
pub struct MonitorInfo {
    pub device_name: String,
    pub description: String,
    pub is_primary: bool,
    pub is_active: bool,
}

/// The portion of a display's mode that a change request carries:
/// resolution, desktop position, colour depth and refresh rate.
/// Captured values are copied back verbatim on restore, never
/// interpreted field by field.
#[derive(Clone, Copy, Debug, PartialEq, Eq, Structural)]
pub struct DisplayConfiguration {
    pub width: u32,
    pub height: u32,
    pub position_x: i32,
    pub position_y: i32,
    pub bits_per_pixel: u32,
    pub display_frequency: u32,
}

/// The configuration that detaches a display from the desktop: zero
/// resolution and no position claim, which the OS takes as "disable
/// this output but keep its restorable settings".
pub open spec fn spec_disable_config() -> DisplayConfiguration {
    DisplayConfiguration {
        width: 0,
        height: 0,
        position_x: 0,
        position_y: 0,
        bits_per_pixel: 0,
        display_frequency: 0,
    }
}

/// A disable request is recognised by its zero resolution.
pub open spec fn is_disable_config(c: DisplayConfiguration) -> bool {
    c.width == 0 && c.height == 0
}

/// Builds the request that detaches a display from the desktop.
pub fn disable_config() -> (c: DisplayConfiguration)
    ensures
        c == spec_disable_config(),
        is_disable_config(c),
{
    DisplayConfiguration {
        width: 0,
        height: 0,
        position_x: 0,
        position_y: 0,
        bits_per_pixel: 0,
        display_frequency: 0,
    }
}

/// One display as seen by a capture pass: the enumerated device and
/// the configuration the OS reported for it, or `None` when the query
/// failed and the display must be left out of the snapshot.
#[derive(Clone, Debug)]
pub struct CapturedDisplay {
    pub info: MonitorInfo,
    pub settings: Option<DisplayConfiguration>,
}

/// Index of the first zero code unit in `s`, or `s.len()` when none
/// occurs: where decoding of an OS wide-character buffer must stop.
pub open spec fn spec_terminator_index(s: Seq<u16>) -> int
    decreases s.len(),
{
    if s.len() == 0 {
        0
    } else if s[0] == 0 {
        0
    } else {
        1 + spec_terminator_index(s.drop_first())
    }
}

/// The code units of `s` up to, and not including, the first zero.
pub open spec fn spec_terminated_prefix(s: Seq<u16>) -> Seq<u16> {
    s.take(spec_terminator_index(s))
}

/// An index that is preceded only by nonzero units and that sits on a
/// zero unit (or at the end) is exactly the terminator index.
proof fn lemma_terminator_index_at(s: Seq<u16>, i: int)
    requires
        0 <= i <= s.len(),
        forall|j: int| 0 <= j < i ==> s[j] != 0,
        i < s.len() ==> s[i] == 0,
    ensures
        spec_terminator_index(s) == i,
    decreases s.len(),
{
    if s.len() == 0 {
    } else if s[0] == 0 {
        assert(i == 0);
    } else {
        assert(i >= 1);
        let t = s.drop_first();
        assert(forall|j: int| 0 <= j < i - 1 ==> t[j] != 0);
        lemma_terminator_index_at(t, i - 1);
    }
}

/// Copies `buf` up to its first zero code unit, never farther.
pub fn terminated_prefix(buf: &Vec<u16>) -> (p: Vec<u16>)
    ensures
        p@ == spec_terminated_prefix(buf@),
{
    let mut p: Vec<u16> = Vec::new();
    let mut i: usize = 0;
    while i < buf.len()
        invariant
            0 <= i <= buf@.len(),
            p@ == buf@.take(i as int),
            forall|j: int| 0 <= j < i ==> buf@[j] != 0,
        decreases buf@.len() - i,
    {
        if buf[i] == 0 {
            proof {
                lemma_terminator_index_at(buf@, i as int);
            }
            return p;
        }
        let u = buf[i];
        p.push(u);
        proof {
            assert(buf@.take(i + 1 as int) =~= buf@.take(i as int).push(buf@[i as int]));
        }
        i = i + 1;
    }
    proof {
        lemma_terminator_index_at(buf@, buf@.len() as int);
        assert(buf@.take(buf@.len() as int) =~= buf@);
    }
    p
}

/// The characters that lossy UTF-16 decoding yields for a sequence of
/// code units; the result depends on the code units alone.
pub uninterp spec fn utf16_lossy_of(s: Seq<u16>) -> Seq<char>;

/// Relies on String::from_utf16_lossy: decodes UTF-16 code units,
/// replacing invalid data, as a function of the code units alone.
#[verifier::external_body]
fn decode_utf16_lossy(units: &Vec<u16>) -> (r: String)
    ensures
        r@ == utf16_lossy_of(units@),
{
    String::from_utf16_lossy(units)
}

/// Turns one raw device record, as the OS hands it out (two
/// fixed-size wide-character buffers with embedded terminators and a
/// state-flag word), into a `MonitorInfo`. Both strings are decoded
/// only up to their first terminator.
pub fn monitor_from_device(name_buf: &Vec<u16>, desc_buf: &Vec<u16>, state_flags: u32) -> (m:
    MonitorInfo)
    ensures
        m.device_name@ == utf16_lossy_of(spec_terminated_prefix(name_buf@)),
        m.description@ == utf16_lossy_of(spec_terminated_prefix(desc_buf@)),
        m.is_active == ((state_flags & DISPLAY_DEVICE_ATTACHED_TO_DESKTOP) != 0),
        m.is_primary == ((state_flags & DISPLAY_DEVICE_PRIMARY_DEVICE) != 0),
{
    let name_units = terminated_prefix(name_buf);
    let desc_units = terminated_prefix(desc_buf);
    MonitorInfo {
        device_name: decode_utf16_lossy(&name_units),
        description: decode_utf16_lossy(&desc_units),
        is_primary: state_flags & DISPLAY_DEVICE_PRIMARY_DEVICE != 0,
        is_active: state_flags & DISPLAY_DEVICE_ATTACHED_TO_DESKTOP != 0,
    }
}

} // verus!
