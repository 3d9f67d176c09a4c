//! Choices about the drawing surface: its pixel format and its size.

use vstd::prelude::*;
use wgpu::TextureFormat;

verus! {

/// `wgpu::TextureFormat`, declared so that formats can be held and handed on;
/// its contents stay opaque to the proofs.
#[verifier::external_type_specification]
#[verifier::external_body]
pub struct ExTextureFormat(wgpu::TextureFormat);

/// Whether wgpu counts `format` as an sRGB format (`TextureFormat::is_srgb`).
pub uninterp spec fn is_srgb_format(format: TextureFormat) -> bool;

/// `wgpu::TextureFormat::is_srgb`: its contract claims only that the answer is
/// `is_srgb_format` of the format, a function of the format alone (wgpu compares
/// the format with the format stripped of its sRGB suffix).
#[verifier::external_body]
fn format_is_srgb(format: &TextureFormat) -> (srgb: bool)
    ensures
        srgb == is_srgb_format(*format),
{
    format.is_srgb()
}

/// Index `i` is the first one flagged in `flags`.
pub open spec fn first_flagged(flags: Seq<bool>, i: int) -> bool {
    &&& 0 <= i < flags.len()
    &&& flags[i]
    &&& forall|j: int| 0 <= j < i ==> !flags[j]
}

/// The index of the preferred surface format, given which of the offered formats
/// are sRGB: the first sRGB one, or else the first offered.
pub fn preferred_format_index(srgb: &Vec<bool>) -> (i: usize)
    requires
        srgb.len() > 0,
    ensures
        i < srgb.len(),
        first_flagged(srgb@, i as int) || (i == 0 && forall|k: int| 0 <= k < srgb.len() ==> !srgb@[k]),
{
    let mut k: usize = 0;
    while k < srgb.len()
        invariant
            k <= srgb.len(),
            forall|j: int| 0 <= j < k ==> !srgb@[j],
        decreases srgb.len() - k,
    {
        if srgb[k] {
            return k;
        }
        k = k + 1;
    }
    0
}

/// The surface format the renderer configures from the formats the surface
/// offers: the first sRGB format, or else the first offered.
pub fn choose_surface_format(formats: &Vec<TextureFormat>) -> (chosen: TextureFormat)
    requires
        formats.len() > 0,
    ensures
        (exists|k: int| first_flagged(formats@.map_values(|f: TextureFormat| is_srgb_format(f)), k)
            && chosen == formats@[k])
        || ((forall|k: int| 0 <= k < formats.len() ==> !is_srgb_format(#[trigger] formats@[k]))
            && chosen == formats@[0]),
{
    let ghost flags_spec = formats@.map_values(|f: TextureFormat| is_srgb_format(f));
    let mut srgb: Vec<bool> = Vec::new();
    let mut k: usize = 0;
    while k < formats.len()
        invariant
            k <= formats.len(),
            srgb@.len() == k,
            flags_spec.len() == formats@.len(),
            forall|j: int| 0 <= j < k ==> srgb@[j] == is_srgb_format(#[trigger] formats@[j]),
        decreases formats.len() - k,
    {
        let flag: bool = format_is_srgb(&formats[k]);
        srgb.push(flag);
        k = k + 1;
    }
    assert(srgb@ =~= flags_spec);
    let i: usize = preferred_format_index(&srgb);
    proof {
        if !first_flagged(flags_spec, i as int) {
            assert forall|j: int| 0 <= j < formats.len() implies !is_srgb_format(#[trigger] formats@[j]) by {
                assert(!srgb@[j]);
            }
        }
    }
    formats[i]
}

/// A surface size in pixels.
#[derive(Clone, Copy, Debug, PartialEq, Eq, Structural)]
pub struct SurfaceSize {
    pub width: u32,
    pub height: u32,
}

/// The size a resize request configures the surface to: the requested size, or
/// none for a request with a zero side (a minimised window), which is ignored.
pub fn accepted_size(requested: SurfaceSize) -> (size: Option<SurfaceSize>)
    ensures
        size == (if requested.width > 0 && requested.height > 0 {
            Some(requested)
        } else {
            None
        }),
{
    if requested.width > 0 && requested.height > 0 {
        Some(requested)
    } else {
        None
    }
}

/// The size of a character cell and the margin around the text, in pixels.
#[derive(Clone, Copy, Debug, PartialEq, Eq, Structural)]
pub struct CellLayout {
    pub cell_width: u32,
    pub cell_height: u32,
    pub padding: u32,
}

/// How many cells of `cell` pixels fit along `extent` pixels less a margin of
/// `padding` pixels at both ends, at most `u16::MAX`.
pub open spec fn cells_fitting(extent: u32, padding: u32, cell: u32) -> int {
    let room = extent - 2 * padding;
    if room <= 0 {
        0
    } else if room / (cell as int) > u16::MAX {
        u16::MAX as int
    } else {
        room / (cell as int)
    }
}

/// `cells_fitting` is the most whole cells that fit in the room left between the
/// margins, capped at `u16::MAX`: that many fit, and (below the cap) one more
/// would not.
pub proof fn lemma_cells_fitting(extent: u32, padding: u32, cell: u32)
    requires
        cell > 0,
    ensures
        ({
            let room = extent - 2 * padding;
            let n = cells_fitting(extent, padding, cell);
            &&& 0 <= n <= u16::MAX
            &&& n * cell <= if room > 0 { room } else { 0 }
            &&& (n < u16::MAX ==> (n + 1) * cell > room)
        }),
{
    let room = extent - 2 * padding;
    let c = cell as int;
    if room > 0 {
        assert((room / c) * c <= room < (room / c + 1) * c) by (nonlinear_arith)
            requires
                room > 0,
                c > 0,
        ;
        assert(room / c >= 0) by (nonlinear_arith)
            requires
                room > 0,
                c > 0,
        ;
        if room / c > u16::MAX {
            assert((u16::MAX as int) * c <= (room / c) * c) by (nonlinear_arith)
                requires
                    room / c > u16::MAX,
                    c > 0,
            ;
        }
    }
}

fn cells_fitting_exec(extent: u32, padding: u32, cell: u32) -> (n: u16)
    requires
        cell > 0,
    ensures
        n as int == cells_fitting(extent, padding, cell),
{
    let room: u64 = if (extent as u64) > 2 * (padding as u64) {
        extent as u64 - 2 * (padding as u64)
    } else {
        0
    };
    let n: u64 = room / (cell as u64);
    if n > u16::MAX as u64 {
        u16::MAX
    } else {
        n as u16
    }
}

/// The columns and rows of text that a surface of `size` holds, for cells of
/// `cell_width` by `cell_height` pixels and a margin of `padding` pixels on every
/// side (at most `u16::MAX` each, the largest size a pseudo-terminal takes).
pub fn grid_size(size: SurfaceSize, cell_width: u32, cell_height: u32, padding: u32) -> (grid: (u16, u16))
    requires
        cell_width > 0,
        cell_height > 0,
    ensures
        grid.0 as int == cells_fitting(size.width, padding, cell_width),
        grid.1 as int == cells_fitting(size.height, padding, cell_height),
{
    (cells_fitting_exec(size.width, padding, cell_width), cells_fitting_exec(size.height, padding, cell_height))
}

} // verus!
