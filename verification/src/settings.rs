//! The image-viewer display-unit preference: the one piece of
//! cross-cutting configuration the runtime hosts in a global slot. The
//! types are plain values; the slot stores their stable encoding under a
//! fixed type key.

use vstd::prelude::*;

verus! {

/// The type key under which the image-viewer settings live in the
/// global-slot registry.
pub const IMAGE_VIEWER_SETTINGS_KEY: u64 = 1;

/// How file sizes are displayed: powers of 1024 or powers of 1000.
#[derive(Clone, Copy, PartialEq, Eq, Structural, Debug)]
pub enum ImageFileSizeUnit {
    Binary,
    Decimal,
}

/// The image viewer's settings: only the display-unit preference.
#[derive(Clone, Copy, PartialEq, Eq, Structural, Debug)]
pub struct ImageViewerSettings {
    pub unit: ImageFileSizeUnit,
}

impl Default for ImageFileSizeUnit {
    /// The default unit preference is binary.
    fn default() -> (r: Self)
        ensures
            r == ImageFileSizeUnit::Binary,
    {
        ImageFileSizeUnit::Binary
    }
}

impl Default for ImageViewerSettings {
    /// Default settings: the binary unit preference.
    fn default() -> (r: Self)
        ensures
            r == (ImageViewerSettings { unit: ImageFileSizeUnit::Binary }),
    {
        ImageViewerSettings { unit: ImageFileSizeUnit::Binary }
    }
}

/// The stable encoding of the settings as a slot value. The default
/// settings encode to zero, the slot registry's default-constructed
/// value.
pub open spec fn settings_code(s: ImageViewerSettings) -> u64 {
    match s.unit {
        ImageFileSizeUnit::Binary => 0,
        ImageFileSizeUnit::Decimal => 1,
    }
}

/// The settings a slot value decodes to; every unknown code falls back to
/// the default unit.
pub open spec fn settings_of_code(v: u64) -> ImageViewerSettings {
    if v == 1 {
        ImageViewerSettings { unit: ImageFileSizeUnit::Decimal }
    } else {
        ImageViewerSettings { unit: ImageFileSizeUnit::Binary }
    }
}

/// Encodes the settings for the global slot.
pub fn encode_settings(s: &ImageViewerSettings) -> (r: u64)
    ensures
        r == settings_code(*s),
{
    match s.unit {
        ImageFileSizeUnit::Binary => 0,
        ImageFileSizeUnit::Decimal => 1,
    }
}

/// Decodes a global-slot value back into settings.
pub fn decode_settings(v: u64) -> (r: ImageViewerSettings)
    ensures
        r == settings_of_code(v),
{
    if v == 1 {
        ImageViewerSettings { unit: ImageFileSizeUnit::Decimal }
    } else {
        ImageViewerSettings { unit: ImageFileSizeUnit::Binary }
    }
}

/// Encoding then decoding gives the settings back unchanged.
pub proof fn lemma_settings_round_trip(s: ImageViewerSettings)
    ensures
        settings_of_code(settings_code(s)) == s,
{
}

} // verus!
