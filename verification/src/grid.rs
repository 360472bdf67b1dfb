//! Pixel grids: a grayscale source grid, a color grid for the overlay, and the
//! binary mask the binarizer produces. Pixels are stored row-major; the cell at
//! `(x, y)` sits at index `y * width + x`.

use vstd::prelude::*;

verus! {

/// A color pixel: red, green and blue channels.
#[derive(Clone, Copy, PartialEq, Eq, Structural, Debug)]
pub struct Rgb {
    pub r: u8,
    pub g: u8,
    pub b: u8,
}

/// A grayscale image: one intensity per pixel, row-major.
pub struct GrayGrid {
    pub width: usize,
    pub height: usize,
    pub data: Vec<u8>,
}

/// A color image: one `Rgb` per pixel, row-major.
pub struct RgbGrid {
    pub width: usize,
    pub height: usize,
    pub data: Vec<Rgb>,
}

/// A binary mask: each cell is 0 (background) or 255 (foreground), row-major.
pub struct Mask {
    pub width: usize,
    pub height: usize,
    pub cells: Vec<u8>,
}

/// The foreground mask of a grayscale raster: a pixel is foreground exactly
/// when its intensity is at least `threshold`.
pub open spec fn mask_spec(pixels: Seq<u8>, threshold: u8) -> Seq<bool> {
    pixels.map_values(|v: u8| v >= threshold)
}

impl View for GrayGrid {
    type V = Seq<u8>;

    open spec fn view(&self) -> Seq<u8> {
        self.data@
    }
}

impl View for RgbGrid {
    type V = Seq<Rgb>;

    open spec fn view(&self) -> Seq<Rgb> {
        self.data@
    }
}

impl View for Mask {
    type V = Seq<bool>;

    open spec fn view(&self) -> Seq<bool> {
        self.cells@.map_values(|v: u8| v != 0)
    }
}

impl GrayGrid {
    /// Dimensions fit in 32 bits and the data holds exactly one cell per pixel.
    pub open spec fn wf(self) -> bool {
        &&& self.width <= 0xFFFF_FFFF
        &&& self.height <= 0xFFFF_FFFF
        &&& self.data@.len() == self.width * self.height
    }

    /// Builds a grid from row-major data; fails exactly when the dimensions do
    /// not fit in 32 bits or the data length does not match them.
    pub fn from_data(width: usize, height: usize, data: Vec<u8>) -> (r: Option<GrayGrid>)
        ensures
            match r {
                Some(g) => g.wf() && g.width == width && g.height == height && g@ == data@,
                None => !(width <= 0xFFFF_FFFF && height <= 0xFFFF_FFFF && data@.len() == width
                    * height),
            },
    {
        proof {
            assert(width <= 0xFFFF_FFFF && height <= 0xFFFF_FFFF ==> (width as int) * (
            height as int) < 0x1_0000_0000_0000_0000) by (nonlinear_arith);
        }
        if (width as u64) <= 0xFFFF_FFFF && (height as u64) <= 0xFFFF_FFFF && (data.len() as u64)
            == (width as u64) * (height as u64) {
            Some(GrayGrid { width, height, data })
        } else {
            None
        }
    }

    /// The intensity at `(x, y)`.
    pub fn get(&self, x: usize, y: usize) -> (r: u8)
        requires
            self.wf(),
            x < self.width,
            y < self.height,
        ensures
            r == self@[y * self.width + x],
    {
        let len: usize = self.data.len();
        proof {
            assert((y as int) * (self.width as int) + (x as int) < (self.width as int) * (
            self.height as int)) by (nonlinear_arith)
                requires
                    x < self.width && y < self.height,
            ;
        }
        self.data[y * self.width + x]
    }
}

impl RgbGrid {
    /// Dimensions fit in 32 bits and the data holds exactly one cell per pixel.
    pub open spec fn wf(self) -> bool {
        &&& self.width <= 0xFFFF_FFFF
        &&& self.height <= 0xFFFF_FFFF
        &&& self.data@.len() == self.width * self.height
    }

    /// Builds a color grid from row-major data; fails exactly when the
    /// dimensions do not fit in 32 bits or the data length does not match them.
    pub fn from_data(width: usize, height: usize, data: Vec<Rgb>) -> (r: Option<RgbGrid>)
        ensures
            match r {
                Some(g) => g.wf() && g.width == width && g.height == height && g@ == data@,
                None => !(width <= 0xFFFF_FFFF && height <= 0xFFFF_FFFF && data@.len() == width
                    * height),
            },
    {
        proof {
            assert(width <= 0xFFFF_FFFF && height <= 0xFFFF_FFFF ==> (width as int) * (
            height as int) < 0x1_0000_0000_0000_0000) by (nonlinear_arith);
        }
        if (width as u64) <= 0xFFFF_FFFF && (height as u64) <= 0xFFFF_FFFF && (data.len() as u64)
            == (width as u64) * (height as u64) {
            Some(RgbGrid { width, height, data })
        } else {
            None
        }
    }

    /// The color at `(x, y)`.
    pub fn get(&self, x: usize, y: usize) -> (r: Rgb)
        requires
            self.wf(),
            x < self.width,
            y < self.height,
        ensures
            r == self@[y * self.width + x],
    {
        let len: usize = self.data.len();
        proof {
            assert((y as int) * (self.width as int) + (x as int) < (self.width as int) * (
            self.height as int)) by (nonlinear_arith)
                requires
                    x < self.width && y < self.height,
            ;
        }
        self.data[y * self.width + x]
    }

    /// Overwrites the color at `(x, y)`, leaving every other pixel unchanged.
    pub fn put_pixel(&mut self, x: usize, y: usize, color: Rgb)
        requires
            old(self).wf(),
            x < old(self).width,
            y < old(self).height,
        ensures
            final(self).wf(),
            final(self).width == old(self).width,
            final(self).height == old(self).height,
            final(self)@ == old(self)@.update(y * old(self).width + x, color),
    {
        let len: usize = self.data.len();
        proof {
            assert((y as int) * (self.width as int) + (x as int) < (self.width as int) * (
            self.height as int)) by (nonlinear_arith)
                requires
                    x < self.width && y < self.height,
            ;
        }
        let i: usize = y * self.width + x;
        self.data.set(i, color);
    }
}

impl Mask {
    /// Dimensions fit in 32 bits, one cell per pixel, and every cell is either
    /// 0 or 255.
    pub open spec fn wf(self) -> bool {
        &&& self.width <= 0xFFFF_FFFF
        &&& self.height <= 0xFFFF_FFFF
        &&& self.cells@.len() == self.width * self.height
        &&& forall|i: int| 0 <= i < self.cells@.len() ==> self.cells@[i] == 0 || self.cells@[i] == 255
    }
}

/// Thresholds a grayscale grid into a binary mask: every pixel with intensity
/// at least `threshold` becomes foreground, every other pixel background.
pub fn binarize(g: &GrayGrid, threshold: u8) -> (m: Mask)
    requires
        g.wf(),
    ensures
        m.wf(),
        m.width == g.width,
        m.height == g.height,
        m@ == mask_spec(g@, threshold),
{
    let n: usize = g.data.len();
    let mut cells: Vec<u8> = Vec::new();
    let mut i: usize = 0;
    while i < n
        invariant
            n == g.data@.len(),
            0 <= i <= n,
            cells@.len() == i,
            forall|j: int| 0 <= j < i ==> cells@[j] == (if g.data@[j] >= threshold {
                255u8
            } else {
                0u8
            }),
        decreases n - i,
    {
        let v: u8 = if g.data[i] >= threshold {
            255
        } else {
            0
        };
        cells.push(v);
        i = i + 1;
    }
    let m = Mask { width: g.width, height: g.height, cells };
    proof {
        assert(m@ =~= mask_spec(g@, threshold));
    }
    m
}

} // verus!
