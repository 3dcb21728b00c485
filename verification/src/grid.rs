//! The raster that carries the hidden bits, and the addressing of its
//! hiding spots.
//!
//! A grid of `width` by `height` pixels holds three channel bytes for each
//! pixel (red, green, blue), row by row. Every channel byte is one hiding
//! spot; spot `i` is channel `i % 3` of pixel `i / 3`, and pixel `p` stands
//! in column `p % width` of row `p / width`.

use vstd::prelude::*;

verus! {

/// The number of channel bytes in a pixel.
pub const CHANNELS: u32 = 3;

/// One channel of one pixel.
#[derive(Clone, Copy, Debug, PartialEq, Eq, Structural)]
pub struct HidingSpot {
    /// The pixel's column.
    pub x: u32,
    /// The pixel's row.
    pub y: u32,
    /// The channel within the pixel: 0, 1 or 2.
    pub channel: u32,
}

/// The hiding spot with index `index` in a grid that is `width` pixels wide.
pub open spec fn spot_at(index: u32, width: u32) -> HidingSpot {
    HidingSpot {
        x: ((index as int / 3) % (width as int)) as u32,
        y: ((index as int / 3) / (width as int)) as u32,
        channel: (index as int % 3) as u32,
    }
}

/// The position of a spot's channel byte in the row-by-row sequence of all
/// channel bytes of a grid that is `width` pixels wide.
pub open spec fn byte_position(spot: HidingSpot, width: u32) -> int {
    (spot.y as int * width as int + spot.x as int) * 3 + spot.channel as int
}

/// A spot's byte stands at the spot's own index, and a spot index below
/// `3 * width * height` addresses a pixel inside the grid.
pub proof fn lemma_spot_at(index: u32, width: u32, height: u32)
    requires
        index < 3 * width * height,
    ensures
        width > 0,
        spot_at(index, width).x < width,
        spot_at(index, width).y < height,
        spot_at(index, width).channel < 3,
        byte_position(spot_at(index, width), width) == index,
{
    let w = width as int;
    let h = height as int;
    let p = index as int / 3;
    assert(w > 0) by (nonlinear_arith)
        requires
            0 <= index < 3 * w * h,
            0 <= w,
            0 <= h,
    ;
    assert(3 * width * height == 3 * (w * h)) by (nonlinear_arith)
        requires
            w == width,
            h == height,
    ;
    assert(p < w * h);
    assert(0 <= p % w < w && p == (p / w) * w + p % w && 0 <= p / w) by (nonlinear_arith)
        requires
            0 <= p,
            0 < w,
    ;
    assert(p / w < h) by (nonlinear_arith)
        requires
            0 <= p < w * h,
            0 < w,
            p == (p / w) * w + p % w,
            0 <= p % w,
    ;
}

/// Resolves a spot index to its pixel and channel.
pub fn locate_spot(index: u32, width: u32) -> (spot: HidingSpot)
    requires
        width > 0,
    ensures
        spot == spot_at(index, width),
{
    let pixel: u32 = index / CHANNELS;
    HidingSpot { x: pixel % width, y: pixel / width, channel: index % CHANNELS }
}

/// A `width` by `height` raster of three-byte pixels.
#[derive(Clone, Debug, PartialEq, Eq)]
pub struct Grid {
    width: u32,
    height: u32,
    data: Vec<u8>,
}

impl View for Grid {
    type V = Seq<u8>;

    /// All channel bytes, row by row, three for each pixel.
    closed spec fn view(&self) -> Seq<u8> {
        self.data@
    }
}

impl Grid {
    /// The number of pixels in a row.
    pub closed spec fn spec_width(&self) -> u32 {
        self.width
    }

    /// The number of rows.
    pub closed spec fn spec_height(&self) -> u32 {
        self.height
    }

    /// The grid holds three bytes for each of its pixels, and the number of
    /// its hiding spots fits in 32 bits.
    pub open spec fn wf(&self) -> bool {
        &&& self@.len() == 3 * self.spec_width() * self.spec_height()
        &&& self@.len() <= u32::MAX
    }

    /// Makes a grid from its dimensions and its channel bytes, given row by
    /// row. Returns `None` unless there are exactly three bytes for each
    /// pixel and no more than `u32::MAX` bytes in all.
    pub fn new(width: u32, height: u32, data: Vec<u8>) -> (r: Option<Grid>)
        ensures
            r is Some <==> data@.len() == 3 * width * height && data@.len() <= u32::MAX,
            r is Some ==> r->Some_0.wf() && r->Some_0@ == data@ && r->Some_0.spec_width() == width
                && r->Some_0.spec_height() == height,
    {
        assert(width * height <= 0xffff_ffff * 0xffff_ffff) by (nonlinear_arith)
            requires
                0 <= width <= 0xffff_ffff,
                0 <= height <= 0xffff_ffff,
        ;
        let spots: u128 = 3 * (width as u128 * height as u128);
        assert(spots == 3 * width * height) by (nonlinear_arith)
            requires
                spots == 3 * (width * height),
        ;
        if spots > u32::MAX as u128 || data.len() as u128 != spots {
            return None;
        }
        Some(Grid { width, height, data })
    }

    /// The number of pixels in a row.
    pub fn width(&self) -> (w: u32)
        ensures
            w == self.spec_width(),
    {
        self.width
    }

    /// The number of rows.
    pub fn height(&self) -> (h: u32)
        ensures
            h == self.spec_height(),
    {
        self.height
    }

    /// The number of hiding spots: one for each channel byte.
    pub fn hiding_spots(&self) -> (n: u32)
        requires
            self.wf(),
        ensures
            n == self@.len(),
            n == 3 * self.spec_width() * self.spec_height(),
    {
        self.data.len() as u32
    }

    /// The channel bytes, row by row.
    pub fn as_bytes(&self) -> (bytes: &Vec<u8>)
        ensures
            bytes@ == self@,
    {
        &self.data
    }

    /// Gives up the grid for its channel bytes, row by row.
    pub fn into_bytes(self) -> (bytes: Vec<u8>)
        ensures
            bytes@ == self@,
    {
        self.data
    }

    /// Reads the channel byte of a hiding spot.
    pub fn channel(&self, spot: HidingSpot) -> (byte: u8)
        requires
            self.wf(),
            spot.x < self.spec_width(),
            spot.y < self.spec_height(),
            spot.channel < 3,
        ensures
            0 <= byte_position(spot, self.spec_width()) < self@.len(),
            byte == self@[byte_position(spot, self.spec_width())],
    {
        let at: usize = self.offset(spot);
        self.data[at]
    }

    /// Writes the channel byte of a hiding spot.
    pub fn set_channel(&mut self, spot: HidingSpot, byte: u8)
        requires
            old(self).wf(),
            spot.x < old(self).spec_width(),
            spot.y < old(self).spec_height(),
            spot.channel < 3,
        ensures
            final(self).wf(),
            final(self).spec_width() == old(self).spec_width(),
            final(self).spec_height() == old(self).spec_height(),
            0 <= byte_position(spot, old(self).spec_width()) < old(self)@.len(),
            final(self)@ == old(self)@.update(byte_position(spot, old(self).spec_width()), byte),
    {
        let at: usize = self.offset(spot);
        self.data[at] = byte;
    }

    fn offset(&self, spot: HidingSpot) -> (at: usize)
        requires
            self.wf(),
            spot.x < self.spec_width(),
            spot.y < self.spec_height(),
            spot.channel < 3,
        ensures
            at == byte_position(spot, self.spec_width()),
            at < self@.len(),
    {
        proof {
            let w = self.width as int;
            let h = self.height as int;
            let x = spot.x as int;
            let y = spot.y as int;
            assert(0 <= y * w + x < w * h && 0 <= y * w) by (nonlinear_arith)
                requires
                    0 <= x < w,
                    0 <= y < h,
            ;
            assert(3 * self.width * self.height == 3 * (w * h)) by (nonlinear_arith)
                requires
                    w == self.width,
                    h == self.height,
            ;
        }
        let pixel: u32 = spot.y * self.width + spot.x;
        (pixel * CHANNELS + spot.channel) as usize
    }
}

} // verus!
