use vstd::prelude::*;

verus! {

/// Byte offset of pixel `(i, j)` (column `i`, row `j` from the top) in a
/// row-major RGB buffer `width` pixels wide.
pub open spec fn pixel_offset(width: int, i: int, j: int) -> int {
    (j * width + i) * 3
}

/// `bytes` with pixel `(i, j)` set to `color`.
pub open spec fn put_pixel(bytes: Seq<u8>, width: int, i: int, j: int, color: [u8; 3]) -> Seq<u8> {
    let o = pixel_offset(width, i, j);
    bytes.update(o, color@[0]).update(o + 1, color@[1]).update(o + 2, color@[2])
}

/// `bytes` after the pixel writes of `writes`, applied in order, so that the
/// last write to a pixel is the one that stays.
pub open spec fn put_pixels(bytes: Seq<u8>, width: int, writes: Seq<(usize, usize, [u8; 3])>) -> Seq<u8>
    decreases writes.len(),
{
    if writes.len() == 0 {
        bytes
    } else {
        let w = writes.last();
        put_pixel(put_pixels(bytes, width, writes.drop_last()), width, w.0 as int, w.1 as int, w.2)
    }
}

/// Every write of `writes` lands inside a `width × height` image.
pub open spec fn writes_in_bounds(writes: Seq<(usize, usize, [u8; 3])>, width: int, height: int) -> bool {
    forall|k: int| 0 <= k < writes.len() ==> #[trigger] writes[k].0 < width && writes[k].1 < height
}

proof fn lemma_offset_in_bounds(width: int, height: int, i: int, j: int)
    requires
        0 <= i < width,
        0 <= j < height,
    ensures
        0 <= j * width,
        0 <= width * height,
        j * width + i < width * height,
        0 <= pixel_offset(width, i, j),
        pixel_offset(width, i, j) + 3 <= width * height * 3,
{
    assert(j * width + i + 1 <= height * width) by (nonlinear_arith)
        requires 0 <= i < width, 0 <= j < height;
    assert(0 <= j * width) by (nonlinear_arith)
        requires 0 <= j, 0 < width;
    assert(height * width == width * height) by (nonlinear_arith);
}

/// The output image: `width × height` pixels, row-major from the top row, three
/// bytes (red, green, blue) per pixel.
pub struct FrameBuffer {
    width: usize,
    height: usize,
    data: Vec<u8>,
}

impl FrameBuffer {
    pub closed spec fn width_spec(&self) -> nat {
        self.width as nat
    }

    pub closed spec fn height_spec(&self) -> nat {
        self.height as nat
    }

    /// The buffer's bytes.
    pub closed spec fn bytes_spec(&self) -> Seq<u8> {
        self.data@
    }

    /// The byte count always matches the dimensions.
    pub closed spec fn wf(&self) -> bool {
        self.data@.len() == self.width * self.height * 3
    }

    /// A black image of the given size.
    pub fn new(width: u32, height: u32) -> (r: Self)
        requires
            width as int * height as int * 3 <= usize::MAX,
        ensures
            r.wf(),
            r.width_spec() == width,
            r.height_spec() == height,
            r.bytes_spec() == Seq::new((width * height * 3) as nat, |k: int| 0u8),
    {
        let n: usize = width as usize * height as usize * 3;
        let mut data: Vec<u8> = Vec::new();
        while data.len() < n
            invariant
                data@.len() <= n,
                forall|k: int| 0 <= k < data@.len() ==> data@[k] == 0u8,
            decreases n - data@.len(),
        {
            data.push(0u8);
        }
        let r = FrameBuffer { width: width as usize, height: height as usize, data };
        assert(r.bytes_spec() =~= Seq::new((width * height * 3) as nat, |k: int| 0u8));
        r
    }

    pub fn width(&self) -> (r: usize)
        ensures
            r == self.width_spec(),
    {
        self.width
    }

    pub fn height(&self) -> (r: usize)
        ensures
            r == self.height_spec(),
    {
        self.height
    }

    /// The raw RGB bytes, ready for an image encoder.
    pub fn bytes(&self) -> (r: &Vec<u8>)
        ensures
            r@ == self.bytes_spec(),
    {
        &self.data
    }

    /// The color stored at pixel `(i, j)`.
    pub fn pixel(&self, i: usize, j: usize) -> (r: [u8; 3])
        requires
            self.wf(),
            i < self.width_spec(),
            j < self.height_spec(),
        ensures
            r@ == self.bytes_spec().subrange(
                pixel_offset(self.width_spec() as int, i as int, j as int),
                pixel_offset(self.width_spec() as int, i as int, j as int) + 3,
            ),
    {
        proof {
            lemma_offset_in_bounds(self.width as int, self.height as int, i as int, j as int);
        }
        let len: usize = self.data.len();
        assert(self.width * self.height * 3 == len);
        let o: usize = (j * self.width + i) * 3;
        let r = [self.data[o], self.data[o + 1], self.data[o + 2]];
        assert(r@ =~= self.bytes_spec().subrange(o as int, o as int + 3));
        r
    }

    /// Stores `pixel_color` at pixel `(i, j)`; no other byte changes.
    pub fn write_color(&mut self, pixel_color: [u8; 3], i: usize, j: usize)
        requires
            old(self).wf(),
            i < old(self).width_spec(),
            j < old(self).height_spec(),
        ensures
            final(self).wf(),
            final(self).width_spec() == old(self).width_spec(),
            final(self).height_spec() == old(self).height_spec(),
            final(self).bytes_spec() == put_pixel(
                old(self).bytes_spec(),
                old(self).width_spec() as int,
                i as int,
                j as int,
                pixel_color,
            ),
    {
        proof {
            lemma_offset_in_bounds(self.width as int, self.height as int, i as int, j as int);
        }
        let len: usize = self.data.len();
        assert(self.width * self.height * 3 == len);
        let o: usize = (j * self.width + i) * 3;
        self.data.set(o, pixel_color[0]);
        self.data.set(o + 1, pixel_color[1]);
        self.data.set(o + 2, pixel_color[2]);
    }

    /// Copies a rendered tile into the image in one pass: each `(i, j, color)`
    /// entry is written in order.
    pub fn write_tile(&mut self, results: &Vec<(usize, usize, [u8; 3])>)
        requires
            old(self).wf(),
            writes_in_bounds(results@, old(self).width_spec() as int, old(self).height_spec() as int),
        ensures
            final(self).wf(),
            final(self).width_spec() == old(self).width_spec(),
            final(self).height_spec() == old(self).height_spec(),
            final(self).bytes_spec() == put_pixels(old(self).bytes_spec(), old(self).width_spec() as int, results@),
    {
        let ghost start = self.bytes_spec();
        let mut k: usize = 0;
        while k < results.len()
            invariant
                k <= results@.len(),
                self.wf(),
                self.width_spec() == old(self).width_spec(),
                self.height_spec() == old(self).height_spec(),
                start == old(self).bytes_spec(),
                writes_in_bounds(results@, self.width_spec() as int, self.height_spec() as int),
                self.bytes_spec() == put_pixels(start, self.width_spec() as int, results@.take(k as int)),
            decreases results@.len() - k,
        {
            let (i, j, c) = results[k];
            assert(results@[k as int].0 < self.width_spec());
            self.write_color(c, i, j);
            assert(results@.take(k as int + 1).drop_last() =~= results@.take(k as int));
            k = k + 1;
        }
        assert(results@.take(k as int) =~= results@);
    }
}

} // verus!
