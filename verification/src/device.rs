//! The product's device vocabulary: icon roles, heap figures, and the
//! frontlight and display switches a screen may ask the firmware to change.
use vstd::prelude::*;

use crate::host::{Canvas, IconRef, Renderer};

verus! {

/// What an icon *means*, not which file it comes from.
///
/// Roles rather than asset names: the framework must not know a product's
/// asset set, and a role survives the assets being redrawn or renamed.
#[derive(Copy, Clone, Debug, PartialEq, Eq, Structural)]
pub enum IconRole {
    Book,
    Bookmark,
    Download,
    File,
    FileText,
    Folder,
    Image,
    Library,
    Moon,
    Hotspot,
    Search,
    Sun,
    Upload,
    Wifi,
}

impl IconRole {
    /// The number the firmware's role table uses for this role.
    pub open spec fn spec_code(self) -> u16 {
        match self {
            IconRole::Book => 0,
            IconRole::Bookmark => 1,
            IconRole::Download => 2,
            IconRole::File => 3,
            IconRole::FileText => 4,
            IconRole::Folder => 5,
            IconRole::Image => 6,
            IconRole::Library => 7,
            IconRole::Moon => 8,
            IconRole::Hotspot => 9,
            IconRole::Search => 10,
            IconRole::Sun => 11,
            IconRole::Upload => 12,
            IconRole::Wifi => 13,
        }
    }

    pub fn code(self) -> (c: u16)
        ensures
            c == self.spec_code(),
    {
        match self {
            IconRole::Book => 0,
            IconRole::Bookmark => 1,
            IconRole::Download => 2,
            IconRole::File => 3,
            IconRole::FileText => 4,
            IconRole::Folder => 5,
            IconRole::Image => 6,
            IconRole::Library => 7,
            IconRole::Moon => 8,
            IconRole::Hotspot => 9,
            IconRole::Search => 10,
            IconRole::Sun => 11,
            IconRole::Upload => 12,
            IconRole::Wifi => 13,
        }
    }

    /// The opaque handle the framework draws: the role's number, the outline
    /// variant, the default size. Roles are the product's vocabulary; the
    /// framework only ever sees the handle.
    pub fn icon_ref(self) -> (i: IconRef)
        ensures
            i.kind == self.spec_code(),
            i.variant == 0,
            i.size == 32,
    {
        IconRef { kind: self.code(), variant: 0, size: IconSpec::default_size() }
    }
}

impl From<IconRole> for IconRef {
    /// Roles are the product's vocabulary; the framework only ever sees an
    /// opaque handle, which is what keeps asset names out of it.
    fn from(role: IconRole) -> (i: IconRef) {
        role.icon_ref()
    }
}

impl vstd::std_specs::convert::FromSpecImpl<IconRole> for IconRef {
    open spec fn obeys_from_spec() -> bool {
        true
    }

    open spec fn from_spec(role: IconRole) -> IconRef {
        IconRef { kind: role.spec_code(), variant: 0, size: 32 }
    }
}

/// Distinct roles are distinct icons.
pub proof fn lemma_role_codes_distinct(a: IconRole, b: IconRole)
    ensures
        a.spec_code() == b.spec_code() <==> a == b,
        a.spec_code() < 14,
{
}

/// A role, plus how it should be drawn.
#[derive(Copy, Clone, Debug, PartialEq, Eq, Structural)]
pub struct IconSpec {
    pub role: IconRole,
    /// Solid rather than outline, where the role has both.
    pub filled: bool,
    /// Preferred edge length. The host picks the nearest size it ships.
    pub size: i32,
}

impl IconSpec {
    /// The edge length asked for when nothing else is said.
    pub fn default_size() -> (s: i32)
        ensures
            s == 32,
    {
        32
    }

    pub fn new(role: IconRole) -> (s: IconSpec)
        ensures
            s.role == role,
            !s.filled,
            s.size == 32,
    {
        IconSpec { role, filled: false, size: Self::default_size() }
    }

    /// What the host is asked to draw: the role's number, the filled variant
    /// as 1 and the outline as 0, and the preferred size.
    pub open spec fn spec_icon_ref(self) -> IconRef {
        IconRef { kind: self.role.spec_code(), variant: if self.filled { 1 } else { 0 }, size: self.size }
    }

    /// The size `canvas` will actually draw, or zero when it ships nothing for
    /// this role — the same "compiled out" signal a missing font gives.
    pub fn resolved_size<C: Canvas + ?Sized>(&self, canvas: &C) -> (s: i32)
        ensures
            call_ensures(C::icon_size, (canvas, self.spec_icon_ref()), s),
    {
        let variant: u8 = if self.filled { 1 } else { 0 };
        Renderer::icon_size(canvas, IconRef { kind: self.role.code(), variant, size: self.size })
    }
}

/// A snapshot of the firmware heap. Rust and C++ share one allocator, so these
/// cover both.
#[derive(Copy, Clone, Debug, Default, PartialEq, Eq, Structural)]
pub struct Heap {
    /// Bytes currently free across the heap.
    pub free: i32,
    /// Largest single allocation that would currently succeed. Fragmentation,
    /// not total usage, is what kills a device with no MMU.
    pub largest_block: i32,
    /// Lowest `free` has ever been since boot — the true high-water mark.
    pub min_free: i32,
}

/// A change a screen asks the firmware to make to the light or the display.
#[derive(Copy, Clone, Debug, PartialEq, Eq, Structural)]
pub enum DeviceWrite {
    /// Brightness, 0-100, effective immediately.
    Brightness(i32),
    /// Warmth, 0 (cool) to 100 (warm).
    Warmth(i32),
    LightOn(bool),
    /// Persist the light state — once, on the way out: flash has a finite
    /// erase budget.
    SaveLight,
    /// Flip screen inversion and persist it.
    ToggleInverted,
    /// Persist which implementation of the frontlight panel opens.
    RustFrontlightPanel(bool),
}

/// `percent` held within 0-100.
pub open spec fn clamp_percent(percent: int) -> int {
    if percent < 0 {
        0
    } else if percent > 100 {
        100
    } else {
        percent
    }
}

/// The device's frontlight, as a screen drives it: each setter queues the
/// write the firmware will apply.
pub struct Frontlight;

impl Frontlight {
    /// Sets brightness, clamped to 0-100.
    pub fn set_brightness(writes: &mut Vec<DeviceWrite>, percent: i32)
        ensures
            final(writes)@ == old(writes)@.push(
                DeviceWrite::Brightness(clamp_percent(percent as int) as i32),
            ),
    {
        let clamped = if percent < 0 {
            0
        } else if percent > 100 {
            100
        } else {
            percent
        };
        writes.push(DeviceWrite::Brightness(clamped));
    }

    /// Sets warmth, clamped to 0-100.
    pub fn set_warmth(writes: &mut Vec<DeviceWrite>, percent: i32)
        ensures
            final(writes)@ == old(writes)@.push(
                DeviceWrite::Warmth(clamp_percent(percent as int) as i32),
            ),
    {
        let clamped = if percent < 0 {
            0
        } else if percent > 100 {
            100
        } else {
            percent
        };
        writes.push(DeviceWrite::Warmth(clamped));
    }

    pub fn set_on(writes: &mut Vec<DeviceWrite>, on: bool)
        ensures
            final(writes)@ == old(writes)@.push(DeviceWrite::LightOn(on)),
    {
        writes.push(DeviceWrite::LightOn(on));
    }

    /// Persists the current light state. Call once when a screen closes,
    /// never per adjustment.
    pub fn save(writes: &mut Vec<DeviceWrite>)
        ensures
            final(writes)@ == old(writes)@.push(DeviceWrite::SaveLight),
    {
        writes.push(DeviceWrite::SaveLight);
    }
}

/// Screen inversion (dark mode).
pub struct Display;

impl Display {
    /// Flips inversion and persists it.
    pub fn toggle_inverted(writes: &mut Vec<DeviceWrite>)
        ensures
            final(writes)@ == old(writes)@.push(DeviceWrite::ToggleInverted),
    {
        writes.push(DeviceWrite::ToggleInverted);
    }
}

/// Settings that only the Developers screen changes.
pub struct DevSettings;

impl DevSettings {
    /// Chooses whether the frontlight panel opens in its Rust implementation,
    /// and persists the choice.
    pub fn set_frontlight_panel_rust(writes: &mut Vec<DeviceWrite>, enabled: bool)
        ensures
            final(writes)@ == old(writes)@.push(DeviceWrite::RustFrontlightPanel(enabled)),
    {
        writes.push(DeviceWrite::RustFrontlightPanel(enabled));
    }
}

} // verus!
