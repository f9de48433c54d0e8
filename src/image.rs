use vstd::prelude::*;
use crate::framebuffer::pixel_offset;

verus! {

/// A decoded RGB image: `width × height` pixels, row-major from the top row,
/// three bytes per pixel.
pub struct Image {
    width: u32,
    height: u32,
    pixels: Vec<u8>,
}

/// The color of pixel `(i, j)` of an image `width` pixels wide stored in `bytes`.
pub open spec fn rgb_at(bytes: Seq<u8>, width: int, i: int, j: int) -> (u8, u8, u8) {
    let o = pixel_offset(width, i, j);
    (bytes[o], bytes[o + 1], bytes[o + 2])
}

/// `x` moved into `[0, size)` when it lies one past the end.
pub open spec fn clamp_index(x: int, size: int) -> int {
    if x < size {
        x
    } else {
        size - 1
    }
}

impl Image {
    pub closed spec fn width_spec(&self) -> nat {
        self.width as nat
    }

    pub closed spec fn height_spec(&self) -> nat {
        self.height as nat
    }

    pub closed spec fn bytes_spec(&self) -> Seq<u8> {
        self.pixels@
    }

    /// The byte count always matches the dimensions.
    pub closed spec fn wf(&self) -> bool {
        self.pixels@.len() == self.width as int * self.height as int * 3
    }

    /// Wraps decoded RGB bytes; `None` when their count is not
    /// `3 × width × height`.
    pub fn from_rgb8(width: u32, height: u32, pixels: Vec<u8>) -> (r: Option<Image>)
        ensures
            r.is_some() <==> pixels@.len() == width as int * height as int * 3,
            r matches Some(img) ==> img.wf() && img.width_spec() == width && img.height_spec() == height
                && img.bytes_spec() == pixels@,
    {
        let w: u64 = width as u64;
        let h: u64 = height as u64;
        assert(w * h <= u32::MAX as int * u32::MAX as int) by (nonlinear_arith)
            requires w <= u32::MAX, h <= u32::MAX;
        let wh: u64 = w * h;
        if wh > u64::MAX / 3 {
            let len: usize = pixels.len();
            assert(len <= u64::MAX);
            return None;
        }
        if pixels.len() as u64 != wh * 3 {
            return None;
        }
        Some(Image { width, height, pixels })
    }

    pub fn width(&self) -> (r: u32)
        ensures
            r == self.width_spec(),
    {
        self.width
    }

    pub fn height(&self) -> (r: u32)
        ensures
            r == self.height_spec(),
    {
        self.height
    }

    /// The color of pixel `(i, j)`, or `None` when it lies outside the image.
    pub fn pixel_data(&self, i: u32, j: u32) -> (r: Option<(u8, u8, u8)>)
        requires
            self.wf(),
        ensures
            r == if i < self.width_spec() && j < self.height_spec() {
                Some(rgb_at(self.bytes_spec(), self.width_spec() as int, i as int, j as int))
            } else {
                None::<(u8, u8, u8)>
            },
    {
        if i < self.width && j < self.height {
            let len: usize = self.pixels.len();
            let w: usize = self.width as usize;
            let iu: usize = i as usize;
            let ju: usize = j as usize;
            assert(ju * w + iu + 1 <= w * self.height as int) by (nonlinear_arith)
                requires iu < w, ju < self.height;
            assert(w * self.height as int * 3 == len);
            assert(0 <= ju * w) by (nonlinear_arith);
            let o: usize = (ju * w + iu) * 3;
            Some((self.pixels[o], self.pixels[o + 1], self.pixels[o + 2]))
        } else {
            None
        }
    }

    /// The texel an image texture reads at column `i` and row `j`, both already
    /// scaled from `[0, 1]` to `[0, width]` and `[0, height]`: an index that lies
    /// one past the end is moved back onto the last pixel. `None` for an empty
    /// image, which has no texel to show.
    pub fn texel(&self, i: u32, j: u32) -> (r: Option<(u8, u8, u8)>)
        requires
            self.wf(),
        ensures
            r == if self.width_spec() == 0 || self.height_spec() == 0 {
                None::<(u8, u8, u8)>
            } else {
                Some(rgb_at(
                    self.bytes_spec(),
                    self.width_spec() as int,
                    clamp_index(i as int, self.width_spec() as int),
                    clamp_index(j as int, self.height_spec() as int),
                ))
            },
    {
        if self.width == 0 || self.height == 0 {
            return None;
        }
        let ci: u32 = if i < self.width { i } else { self.width - 1 };
        let cj: u32 = if j < self.height { j } else { self.height - 1 };
        self.pixel_data(ci, cj)
    }
}

} // verus!
