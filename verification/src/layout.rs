//! How a buffer's storage is laid out: the size and stride of a host-memory
//! buffer, the planes of a hardware buffer, and the values that the
//! compositor sends as raw bytes.

use vstd::prelude::*;
use crate::geometry::Size;

verus! {

/// Bytes that one pixel takes in a host-memory buffer.
pub const BYTES_PER_PIXEL: i32 = 4;

/// The code of the pixel format that hardware buffers are allocated in:
/// 32 bits per pixel, 8 unused then 8 each of red, green and blue.
pub const DRM_FORMAT_XRGB8888: u32 = 0x3432_5258;

/// A host-memory buffer's total length and the length of one row, in bytes.
#[derive(Clone, Copy, Debug, PartialEq, Eq, Structural)]
pub struct ShmLayout {
    pub len: i32,
    pub stride: i32,
}

/// Bytes that a host-memory buffer of `size` takes.
pub open spec fn shm_len(size: Size) -> int {
    size.width * size.height * BYTES_PER_PIXEL
}

/// The layout of a host-memory buffer of `size`: four bytes for each pixel,
/// rows packed one after the other. There is none for a size without two
/// positive dimensions, nor where the length in bytes is more than an `i32`
/// holds, which is what the protocol can express.
pub open spec fn shm_layout_of(size: Size) -> Option<ShmLayout> {
    if size.is_positive() && shm_len(size) <= i32::MAX {
        Some(
            ShmLayout {
                len: shm_len(size) as i32,
                stride: (size.width * BYTES_PER_PIXEL) as i32,
            },
        )
    } else {
        None
    }
}

/// Computes the layout of a host-memory buffer of `size`, if it has one.
pub fn shm_layout(size: Size) -> (layout: Option<ShmLayout>)
    ensures
        layout == shm_layout_of(size),
        layout is Some <==> size.is_positive() && shm_len(size) <= i32::MAX,
        layout matches Some(l) ==> l.len == shm_len(size) && l.stride == size.width
            * BYTES_PER_PIXEL,
{
    if size.width <= 0 || size.height <= 0 {
        return None;
    }
    let w: i64 = size.width as i64;
    let h: i64 = size.height as i64;
    assert(0 < w * h <= 0x7fff_ffff * 0x7fff_ffff) by (nonlinear_arith)
        requires
            0 < w <= 0x7fff_ffff,
            0 < h <= 0x7fff_ffff,
    ;
    assert(w * h >= w) by (nonlinear_arith)
        requires
            0 < w,
            1 <= h,
    ;
    let area: i64 = w * h;
    assert(area * 4 == shm_len(size)) by (nonlinear_arith)
        requires
            area == w * h,
            w == size.width,
            h == size.height,
            shm_len(size) == size.width * size.height * 4,
    ;
    if area > 0x1fff_ffff {
        return None;
    }
    let len: i64 = area * 4;
    Some(ShmLayout { len: len as i32, stride: (w * 4) as i32 })
}

/// What the allocator reports of one plane of a hardware buffer.
#[derive(Clone, Copy, Debug, PartialEq, Eq, Structural)]
pub struct PlaneLayout {
    /// Where the plane starts in its memory object, in bytes.
    pub offset: u32,
    /// Length of one row of the plane, in bytes.
    pub stride: u32,
}

/// One plane as it is registered with the compositor.
#[derive(Clone, Copy, Debug, PartialEq, Eq, Structural)]
pub struct PlaneEntry {
    pub plane_idx: u32,
    pub offset: u32,
    pub stride: u32,
    /// The upper 32 bits of the buffer's layout modifier.
    pub modifier_hi: u32,
    /// The lower 32 bits of the buffer's layout modifier.
    pub modifier_lo: u32,
}

/// The upper 32 bits of `modifier`.
pub open spec fn upper_half(modifier: u64) -> u32 {
    (modifier / 0x1_0000_0000) as u32
}

/// The lower 32 bits of `modifier`.
pub open spec fn lower_half(modifier: u64) -> u32 {
    (modifier % 0x1_0000_0000) as u32
}

/// The entry that registers plane `i` of a buffer with these planes and this
/// modifier.
pub open spec fn plane_entry(planes: Seq<PlaneLayout>, modifier: u64, i: int) -> PlaneEntry {
    PlaneEntry {
        plane_idx: i as u32,
        offset: planes[i].offset,
        stride: planes[i].stride,
        modifier_hi: upper_half(modifier),
        modifier_lo: lower_half(modifier),
    }
}

/// Splits a layout modifier into its upper and lower 32 bits.
pub fn split_modifier(modifier: u64) -> (halves: (u32, u32))
    ensures
        halves.0 == upper_half(modifier),
        halves.1 == lower_half(modifier),
        halves.0 * 0x1_0000_0000 + halves.1 == modifier,
{
    let hi: u32 = (modifier >> 32) as u32;
    let lo: u32 = (modifier & 0xffff_ffff) as u32;
    assert(modifier >> 32 == modifier / 0x1_0000_0000) by (bit_vector);
    assert(modifier & 0xffff_ffff == modifier % 0x1_0000_0000) by (bit_vector);
    (hi, lo)
}

/// The entries that register a hardware buffer's planes: one for each plane,
/// in order, each with the plane's number, offset and stride and the two
/// halves of the buffer's modifier.
pub fn plane_entries(planes: &Vec<PlaneLayout>, modifier: u64) -> (entries: Vec<PlaneEntry>)
    requires
        planes@.len() <= u32::MAX,
    ensures
        entries@.len() == planes@.len(),
        forall|i: int|
            0 <= i < planes@.len() ==> #[trigger] entries@[i] == plane_entry(planes@, modifier, i),
{
    let (hi, lo) = split_modifier(modifier);
    let mut entries: Vec<PlaneEntry> = Vec::new();
    let mut i: usize = 0;
    while i < planes.len()
        invariant
            i <= planes@.len() <= u32::MAX,
            entries@.len() == i,
            hi == upper_half(modifier),
            lo == lower_half(modifier),
            forall|k: int| 0 <= k < i ==> #[trigger] entries@[k] == plane_entry(planes@, modifier, k),
        decreases planes@.len() - i,
    {
        let plane: PlaneLayout = planes[i];
        entries.push(
            PlaneEntry {
                plane_idx: i as u32,
                offset: plane.offset,
                stride: plane.stride,
                modifier_hi: hi,
                modifier_lo: lo,
            },
        );
        i += 1;
    }
    entries
}

/// The dimension that a `u32` of the protocol becomes when it is read as an
/// `i32`: itself up to `i32::MAX`, and negative above.
pub open spec fn as_signed(value: u32) -> i32 {
    if value <= i32::MAX {
        value as i32
    } else {
        (value - 0x1_0000_0000) as i32
    }
}

/// Reads an unsigned dimension of the protocol as the signed one that
/// buffers and surfaces are described with.
pub fn to_signed(value: u32) -> (signed: i32)
    ensures
        signed == as_signed(value),
{
    if value <= 0x7fff_ffff {
        value as i32
    } else {
        let below: u32 = 0xffff_ffff - value;
        -1i32 - (below as i32)
    }
}

} // verus!
