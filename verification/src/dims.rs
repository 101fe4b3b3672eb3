use vstd::prelude::*;

verus! {

/// Pixel dimensions of one frame. Every pixel occupies four bytes, so a row
/// occupies `4 * width` bytes and a whole frame `4 * width * height` bytes.
#[derive(Clone, Copy, Debug, PartialEq, Eq, Structural)]
pub struct Dimensions {
    pub width: u32,
    pub height: u32,
}

/// Bytes per row of a frame that is `width` pixels wide.
pub open spec fn spec_stride(width: nat) -> nat {
    4 * width
}

/// Bytes occupied by a whole frame.
pub open spec fn spec_byte_len(width: nat, height: nat) -> nat {
    4 * width * height
}

/// The row length fits in `u32` and the whole frame fits in `usize`;
/// sizes outside these bounds cannot be laid out in memory.
pub open spec fn size_fits(width: nat, height: nat) -> bool {
    spec_stride(width) <= u32::MAX && spec_byte_len(width, height) <= usize::MAX
}

impl Dimensions {
    /// Bytes per row of this frame.
    pub fn stride(&self) -> (r: u32)
        requires
            spec_stride(self.width as nat) <= u32::MAX,
        ensures
            r == spec_stride(self.width as nat),
    {
        self.width * 4
    }

    /// Bytes occupied by this whole frame.
    pub fn len(&self) -> (r: usize)
        requires
            size_fits(self.width as nat, self.height as nat),
        ensures
            r == spec_byte_len(self.width as nat, self.height as nat),
    {
        (self.stride() as usize) * (self.height as usize)
    }

    /// Byte length of this frame, with overflow surfaced instead of assumed away.
    pub fn checked_len(&self) -> (r: Option<usize>)
        ensures
            r is Some <==> size_fits(self.width as nat, self.height as nat),
            r matches Some(n) ==> n == spec_byte_len(self.width as nat, self.height as nat),
    {
        let stride: u64 = (self.width as u64) * 4;
        if stride > u32::MAX as u64 {
            return None;
        }
        proof {
            assert((stride as int) * (self.height as int) <= (u32::MAX as int) * (u32::MAX
                as int)) by (nonlinear_arith)
                requires
                    0 <= stride as int <= u32::MAX as int,
                    0 <= self.height as int <= u32::MAX as int,
            ;
        }
        let total: u64 = stride * (self.height as u64);
        if total > usize::MAX as u64 {
            None
        } else {
            Some(total as usize)
        }
    }
}

/// A configure notification is accepted only when it reports a usable size:
/// `(0, 0)` means "not yet ready, suppress rendering", and a size equal to
/// the current one in either direction leaves the surface as it is.
pub fn updated_dimensions(current: &Dimensions, width: u32, height: u32) -> (r: Option<
    Dimensions,
>)
    ensures
        r is Some <==> (width != 0 && height != 0 && current.width != width && current.height
            != height),
        r matches Some(d) ==> d == (Dimensions { width, height }),
{
    if width != 0 && height != 0 && current.width != width && current.height != height {
        Some(Dimensions { width, height })
    } else {
        None
    }
}

} // verus!
