use vstd::prelude::*;

verus! {

/// Which of a rasterizer's buffers a clear resets.
pub enum Buffer {
    Color,
    Depth,
    Both,
}

impl Buffer {
    /// Whether the clear resets the color buffer.
    pub fn clears_color(&self) -> (r: bool)
        ensures
            r == !(self is Depth),
    {
        match self {
            Buffer::Color => true,
            Buffer::Depth => false,
            Buffer::Both => true,
        }
    }

    /// Whether the clear resets the depth buffer.
    pub fn clears_depth(&self) -> (r: bool)
        ensures
            r == !(self is Color),
    {
        match self {
            Buffer::Color => false,
            Buffer::Depth => true,
            Buffer::Both => true,
        }
    }
}

/// The kind of primitive a draw call assembles from its index buffer.
#[derive(PartialEq, Eq, Structural)]
pub enum Primitive {
    Line,
    Triangle,
}

/// Handle of a loaded vertex-position buffer.
#[derive(Clone, Copy, PartialEq, Eq, Structural)]
pub struct PosBufId(usize);

/// Handle of a loaded index buffer.
#[derive(Clone, Copy, PartialEq, Eq, Structural)]
pub struct IndBufId(usize);

/// Handle of a loaded vertex-color buffer.
#[derive(Clone, Copy, PartialEq, Eq, Structural)]
pub struct ColBufId(usize);

impl PosBufId {
    pub closed spec fn id_spec(&self) -> usize {
        self.0
    }

    pub fn id(&self) -> (r: usize)
        ensures
            r == self.id_spec(),
    {
        self.0
    }
}

impl IndBufId {
    pub closed spec fn id_spec(&self) -> usize {
        self.0
    }

    pub fn id(&self) -> (r: usize)
        ensures
            r == self.id_spec(),
    {
        self.0
    }
}

impl ColBufId {
    pub closed spec fn id_spec(&self) -> usize {
        self.0
    }

    pub fn id(&self) -> (r: usize)
        ensures
            r == self.id_spec(),
    {
        self.0
    }
}

/// Hands out buffer handles: every handle gets a fresh number, counting up
/// from zero, shared by all three kinds of buffer.
pub struct BufferIds {
    next_id: usize,
}

impl BufferIds {
    pub closed spec fn next_spec(&self) -> usize {
        self.next_id
    }

    pub fn new() -> (r: Self)
        ensures
            r.next_spec() == 0,
    {
        BufferIds { next_id: 0 }
    }

    /// The next unused number.
    pub fn get_next_id(&mut self) -> (r: usize)
        requires
            old(self).next_spec() < usize::MAX,
        ensures
            r == old(self).next_spec(),
            final(self).next_spec() == old(self).next_spec() + 1,
    {
        let res = self.next_id;
        self.next_id = self.next_id + 1;
        res
    }

    /// A handle for a position buffer being loaded.
    pub fn next_position(&mut self) -> (r: PosBufId)
        requires
            old(self).next_spec() < usize::MAX,
        ensures
            r.id_spec() == old(self).next_spec(),
            final(self).next_spec() == old(self).next_spec() + 1,
    {
        PosBufId(self.get_next_id())
    }

    /// A handle for an index buffer being loaded.
    pub fn next_indices(&mut self) -> (r: IndBufId)
        requires
            old(self).next_spec() < usize::MAX,
        ensures
            r.id_spec() == old(self).next_spec(),
            final(self).next_spec() == old(self).next_spec() + 1,
    {
        IndBufId(self.get_next_id())
    }

    /// A handle for a color buffer being loaded.
    pub fn next_colors(&mut self) -> (r: ColBufId)
        requires
            old(self).next_spec() < usize::MAX,
        ensures
            r.id_spec() == old(self).next_spec(),
            final(self).next_spec() == old(self).next_spec() + 1,
    {
        ColBufId(self.get_next_id())
    }
}

/// Index of screen pixel `(x, y)`, with `y` counted up from the bottom row, in a
/// row-major buffer stored from the top row down.
pub open spec fn screen_index(height: int, width: int, x: int, y: int) -> int {
    (height - 1 - y) * width + x
}

/// Buffer index of screen pixel `(x, y)`.
pub fn get_index(height: u64, width: u64, x: usize, y: usize) -> (r: usize)
    requires
        x < width,
        y < height,
        height * width <= usize::MAX,
    ensures
        r == screen_index(height as int, width as int, x as int, y as int),
        r < height * width,
{
    let row: u64 = height - 1 - y as u64;
    assert(row * width + x < height * width) by (nonlinear_arith)
        requires row < height, x < width;
    assert(0 <= row * width) by (nonlinear_arith);
    (row * width + x as u64) as usize
}

/// Index of the first of the four multisample slots of screen pixel `(x, y)`.
pub fn get_sample_index(height: u64, width: u64, x: usize, y: usize) -> (r: usize)
    requires
        x < width,
        y < height,
        height * width * 4 <= usize::MAX,
    ensures
        r == 4 * screen_index(height as int, width as int, x as int, y as int),
        r + 4 <= height * width * 4,
{
    let k = get_index(height, width, x, y);
    k * 4
}

} // verus!
