//! The surface that an engine draws to: which of its formats is rendered
//! to, and what acquiring its next image can fail with.

use vstd::prelude::*;

verus! {

/// Why the next image of a surface could not be had.
#[derive(Debug, Clone, Copy, PartialEq, Eq, Structural)]
pub enum SurfaceError {
    Timeout,
    Outdated,
    Lost,
    OutOfMemory,
}

impl SurfaceError {
    /// Whether the error ends the program: only want of memory does; after
    /// any other the frame is skipped and the loop goes on.
    pub fn fatal(&self) -> (yes: bool)
        ensures
            yes == (*self == SurfaceError::OutOfMemory),
    {
        match self {
            SurfaceError::OutOfMemory => true,
            _ => false,
        }
    }
}

/// A texture format of the GPU interface; nothing of it is seen here.
#[verifier::external_type_specification]
#[verifier::external_body]
pub struct ExTextureFormat(wgpu::TextureFormat);

/// Whether `wgpu::TextureFormat::is_srgb` holds of the format.
pub uninterp spec fn srgb(format: wgpu::TextureFormat) -> bool;

/// `wgpu::TextureFormat::is_srgb`: it compares the format with itself
/// stripped of its sRGB suffix, so its answer depends on the format alone.
/// Nothing more is claimed than that the answer is the one named `srgb`.
pub assume_specification[ wgpu::TextureFormat::is_srgb ](format: &wgpu::TextureFormat) -> (yes:
    bool)
    ensures
        yes == srgb(*format),
;

/// The place of the first `true` in `flags`, or 0 where there is none.
pub open spec fn first_set(flags: Seq<bool>) -> int
    decreases flags.len(),
{
    if flags.len() == 0 {
        0
    } else if flags.first() {
        0
    } else if exists|j: int| 0 <= j < flags.len() && flags[j] {
        1 + first_set(flags.drop_first())
    } else {
        0
    }
}

/// `first_set` is the least place that holds `true`, and 0 where none does.
pub proof fn lemma_first_set(flags: Seq<bool>)
    ensures
        0 <= first_set(flags),
        flags.len() > 0 ==> first_set(flags) < flags.len(),
        forall|j: int| 0 <= j < first_set(flags) ==> !flags[j],
        (exists|j: int| 0 <= j < flags.len() && flags[j]) ==> flags[first_set(flags)],
        (forall|j: int| 0 <= j < flags.len() ==> !flags[j]) ==> first_set(flags) == 0,
    decreases flags.len(),
{
    if flags.len() > 0 && !flags.first() {
        let rest = flags.drop_first();
        lemma_first_set(rest);
        if exists|j: int| 0 <= j < flags.len() && flags[j] {
            let j = choose|j: int| 0 <= j < flags.len() && flags[j];
            assert(rest[j - 1]);
            assert(flags[first_set(flags)] == rest[first_set(rest)]);
            assert forall|k: int| 0 <= k < first_set(flags) implies !flags[k] by {
                if k > 0 {
                    assert(flags[k] == rest[k - 1]);
                }
            }
        }
    }
}

/// The place of the surface format to render to: the first that is sRGB,
/// or the first of all where none is. `flags` tells of each format that the
/// surface reports whether it is sRGB.
pub fn choose_format(flags: &Vec<bool>) -> (at: usize)
    requires
        flags@.len() > 0,
    ensures
        at == first_set(flags@),
        at < flags@.len(),
        forall|j: int| 0 <= j < at ==> !flags@[j],
        flags@[at as int] || (at == 0 && forall|j: int| 0 <= j < flags@.len() ==> !flags@[j]),
{
    proof {
        lemma_first_set(flags@);
    }
    let mut i: usize = 0;
    while i < flags.len()
        invariant
            i <= flags@.len(),
            forall|j: int| 0 <= j < i ==> !flags@[j],
            forall|j: int| 0 <= j < first_set(flags@) ==> !flags@[j],
            (exists|j: int| 0 <= j < flags@.len() && flags@[j]) ==> flags@[first_set(flags@)],
            (forall|j: int| 0 <= j < flags@.len() ==> !flags@[j]) ==> first_set(flags@) == 0,
            0 <= first_set(flags@) < flags@.len(),
        decreases flags@.len() - i,
    {
        if flags[i] {
            return i;
        }
        i += 1;
    }
    0
}

/// Of each format, whether it is sRGB.
pub open spec fn srgb_flags(formats: Seq<wgpu::TextureFormat>) -> Seq<bool> {
    Seq::new(formats.len(), |i: int| srgb(formats[i]))
}

/// The surface format to render to, among those that the surface reports:
/// the first that is sRGB, or the first of all where none is.
pub fn surface_format(formats: &Vec<wgpu::TextureFormat>) -> (format: wgpu::TextureFormat)
    requires
        formats@.len() > 0,
    ensures
        format == formats@[first_set(srgb_flags(formats@))],
        0 <= first_set(srgb_flags(formats@)) < formats@.len(),
        forall|j: int| 0 <= j < first_set(srgb_flags(formats@)) ==> !srgb(formats@[j]),
        srgb(format) || (format == formats@[0] && forall|j: int|
            0 <= j < formats@.len() ==> !srgb(formats@[j])),
{
    let mut flags: Vec<bool> = Vec::new();
    let mut i: usize = 0;
    while i < formats.len()
        invariant
            i <= formats@.len(),
            flags@ == srgb_flags(formats@.take(i as int)),
        decreases formats@.len() - i,
    {
        let yes = formats[i].is_srgb();
        flags.push(yes);
        assert(flags@ =~= srgb_flags(formats@.take(i + 1)));
        i += 1;
    }
    assert(formats@.take(formats@.len() as int) =~= formats@);
    let at = choose_format(&flags);
    proof {
        assert forall|j: int| 0 <= j < formats@.len() implies flags@[j] == srgb(formats@[j]) by {}
        assert forall|j: int| 0 <= j < at implies !srgb(formats@[j]) by {
            assert(flags@[j] == srgb(formats@[j]));
        }
        if !flags@[at as int] {
            assert forall|j: int| 0 <= j < formats@.len() implies !srgb(formats@[j]) by {
                assert(flags@[j] == srgb(formats@[j]));
            }
        }
    }
    formats[at]
}

} // verus!
