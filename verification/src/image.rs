//! Raster images: a dense row-major grid of interleaved 8-bit samples.
use vstd::prelude::*;

verus! {

/// Mathematical content of an [`Image`].
pub struct ImageView {
    /// Number of pixel columns.
    pub width: nat,
    /// Number of pixel rows.
    pub height: nat,
    /// Samples per pixel.
    pub channels: nat,
    /// All samples, row by row, pixel by pixel, channel by channel.
    pub samples: Seq<u8>,
}

impl ImageView {
    /// The buffer holds exactly one sample per column, row and channel, and
    /// the channel count is one of the supported ones.
    pub open spec fn wf(self) -> bool {
        &&& (self.channels == 1 || self.channels == 3 || self.channels == 4)
        &&& self.samples.len() == self.width * self.height * self.channels
    }

    /// An image without any pixel.
    pub open spec fn is_empty(self) -> bool {
        self.width == 0 || self.height == 0
    }

    /// Whether `(x, y, c)` names a sample of the image.
    pub open spec fn in_bounds(self, x: int, y: int, c: int) -> bool {
        &&& 0 <= x < self.width
        &&& 0 <= y < self.height
        &&& 0 <= c < self.channels
    }

    /// Position in the buffer of channel `c` of the pixel in column `x` of
    /// row `y`.
    pub open spec fn index_of(self, x: int, y: int, c: int) -> int {
        (y * self.width + x) * self.channels + c
    }

    /// The sample of channel `c` of the pixel in column `x` of row `y`.
    pub open spec fn sample(self, x: int, y: int, c: int) -> u8 {
        self.samples[self.index_of(x, y, c)]
    }

    /// Column of the pixel that buffer slot `t` belongs to.
    pub open spec fn column_of(self, t: int) -> int {
        (t / (self.channels as int)) % (self.width as int)
    }

    /// Row of the pixel that buffer slot `t` belongs to.
    pub open spec fn row_of(self, t: int) -> int {
        (t / (self.channels as int)) / (self.width as int)
    }

    /// Channel that buffer slot `t` holds.
    pub open spec fn channel_of(self, t: int) -> int {
        t % (self.channels as int)
    }
}

/// The image of the given shape over the given buffer.
pub open spec fn shaped(width: usize, height: usize, channels: usize, samples: Seq<u8>) -> ImageView {
    ImageView { width: width as nat, height: height as nat, channels: channels as nat, samples }
}

/// Every in-bounds coordinate triple addresses a slot of the buffer, and the
/// slot determines the triple.
pub proof fn lemma_index_of_in_bounds(img: ImageView, x: int, y: int, c: int)
    requires
        img.wf(),
        img.in_bounds(x, y, c),
    ensures
        0 <= img.index_of(x, y, c) < img.samples.len(),
        0 <= y * img.width + x < img.width * img.height,
        img.column_of(img.index_of(x, y, c)) == x,
        img.row_of(img.index_of(x, y, c)) == y,
        img.channel_of(img.index_of(x, y, c)) == c,
{
    let w: int = img.width as int;
    let h: int = img.height as int;
    let n: int = img.channels as int;
    let pixel: int = y * w + x;
    assert(0 <= y * w && y * w + w <= h * w) by (nonlinear_arith)
        requires
            0 <= y < h,
            0 <= w,
    ;
    assert(h * w == w * h) by (nonlinear_arith);
    assert(0 <= pixel * n && pixel * n + n <= (w * h) * n) by (nonlinear_arith)
        requires
            0 <= pixel < w * h,
            0 <= n,
    ;
    vstd::arithmetic::div_mod::lemma_fundamental_div_mod_converse(pixel * n + c, n, pixel, c);
    vstd::arithmetic::div_mod::lemma_fundamental_div_mod_converse(pixel, w, y, x);
}

/// Every slot of the buffer belongs to exactly one in-bounds coordinate
/// triple.
pub proof fn lemma_slot_decodes(img: ImageView, t: int)
    requires
        img.wf(),
        0 <= t < img.samples.len(),
    ensures
        img.in_bounds(img.column_of(t), img.row_of(t), img.channel_of(t)),
        img.index_of(img.column_of(t), img.row_of(t), img.channel_of(t)) == t,
{
    let w: int = img.width as int;
    let h: int = img.height as int;
    let n: int = img.channels as int;
    let pixel: int = t / n;
    let c: int = t % n;
    vstd::arithmetic::div_mod::lemma_fundamental_div_mod(t, n);
    vstd::arithmetic::div_mod::lemma_mod_bound(t, n);
    assert(0 <= pixel < w * h) by (nonlinear_arith)
        requires
            t == n * pixel + c,
            0 <= c < n,
            0 <= t < w * h * n,
    ;
    assert(w >= 1) by (nonlinear_arith)
        requires
            0 < w * h,
            0 <= w,
    ;
    let y: int = pixel / w;
    let x: int = pixel % w;
    vstd::arithmetic::div_mod::lemma_fundamental_div_mod(pixel, w);
    vstd::arithmetic::div_mod::lemma_mod_bound(pixel, w);
    assert(0 <= y < h) by (nonlinear_arith)
        requires
            pixel == w * y + x,
            0 <= x < w,
            0 <= pixel < w * h,
    ;
    assert((y * w + x) * n + c == t) by (nonlinear_arith)
        requires
            pixel == w * y + x,
            t == n * pixel + c,
    ;
}

/// A raster image of 8-bit samples.
///
/// The sample buffer always has exactly `width * height * channels` entries
/// and `channels` is 1, 3 or 4. An image may be empty (zero width or height).
#[derive(Debug, PartialEq, Eq)]
pub struct Image {
    width: usize,
    height: usize,
    channels: usize,
    data: Vec<u8>,
}

impl View for Image {
    type V = ImageView;

    closed spec fn view(&self) -> ImageView {
        ImageView {
            width: self.width as nat,
            height: self.height as nat,
            channels: self.channels as nat,
            samples: self.data@,
        }
    }
}

impl Clone for Image {
    fn clone(&self) -> (copy: Self)
        ensures
            copy@ == self@,
    {
        proof {
            use_type_invariant(self);
        }
        let data: Vec<u8> = self.data.clone();
        assert(data@ =~= self.data@);
        Image { width: self.width, height: self.height, channels: self.channels, data }
    }
}

impl Image {
    #[verifier::type_invariant]
    spec fn inv(&self) -> bool {
        self@.wf()
    }

    /// Wraps a sample buffer as an image of the given shape.
    ///
    /// Returns `None` exactly when `channels` is not 1, 3 or 4, or when the
    /// buffer does not hold `width * height * channels` samples.
    pub fn new(width: usize, height: usize, channels: usize, data: Vec<u8>) -> (made: Option<Image>)
        ensures
            made is Some <==> shaped(width, height, channels, data@).wf(),
            made matches Some(img) ==> img@ == shaped(width, height, channels, data@),
    {
        if channels != 1 && channels != 3 && channels != 4 {
            return None;
        }
        let len: usize = data.len();
        let pixels: usize = match width.checked_mul(height) {
            Some(p) => p,
            None => {
                proof {
                    lemma_product_too_long(width as int, height as int, channels as int, data@.len() as int);
                }
                return None;
            },
        };
        let expected: usize = match pixels.checked_mul(channels) {
            Some(e) => e,
            None => {
                return None;
            },
        };
        if len != expected {
            return None;
        }
        Some(Image { width, height, channels, data })
    }

    /// Assembles an image from parts that are known to fit together.
    pub(crate) fn assemble(width: usize, height: usize, channels: usize, data: Vec<u8>) -> (made: Image)
        requires
            shaped(width, height, channels, data@).wf(),
        ensures
            made@ == shaped(width, height, channels, data@),
    {
        Image { width, height, channels, data }
    }

    /// Number of pixel columns.
    pub fn width(&self) -> (w: usize)
        ensures
            w == self@.width,
            self@.wf(),
    {
        proof {
            use_type_invariant(self);
        }
        self.width
    }

    /// Number of pixel rows.
    pub fn height(&self) -> (h: usize)
        ensures
            h == self@.height,
            self@.wf(),
    {
        proof {
            use_type_invariant(self);
        }
        self.height
    }

    /// Samples per pixel.
    pub fn channels(&self) -> (n: usize)
        ensures
            n == self@.channels,
            self@.wf(),
    {
        proof {
            use_type_invariant(self);
        }
        self.channels
    }

    /// The whole sample buffer in row-major, channel-interleaved order.
    pub fn samples(&self) -> (all: &Vec<u8>)
        ensures
            all@ == self@.samples,
            self@.wf(),
    {
        proof {
            use_type_invariant(self);
        }
        &self.data
    }

    /// Whether the image has no pixel at all.
    pub fn is_empty(&self) -> (empty: bool)
        ensures
            empty == self@.is_empty(),
            self@.wf(),
    {
        proof {
            use_type_invariant(self);
        }
        self.width == 0 || self.height == 0
    }

    /// The sample at an in-bounds position.
    pub fn sample(&self, x: usize, y: usize, c: usize) -> (value: u8)
        requires
            self@.in_bounds(x as int, y as int, c as int),
        ensures
            value == self@.sample(x as int, y as int, c as int),
    {
        proof {
            use_type_invariant(self);
            lemma_index_of_in_bounds(self@, x as int, y as int, c as int);
            let pixel: int = y * self.width + x;
            let n: int = self.channels as int;
            assert(self.data@.len() == self.data.len());
            assert(0 <= y * self.width) by (nonlinear_arith)
                requires
                    0 <= y,
                    0 <= self.width,
            ;
            assert(pixel <= pixel * n) by (nonlinear_arith)
                requires
                    0 <= pixel,
                    1 <= n,
            ;
        }
        self.data[(y * self.width + x) * self.channels + c]
    }

    /// The sample at `(x, y, c)`, or `None` when the position lies outside
    /// the image.
    pub fn get(&self, x: usize, y: usize, c: usize) -> (value: Option<u8>)
        ensures
            value == if self@.in_bounds(x as int, y as int, c as int) {
                Some(self@.sample(x as int, y as int, c as int))
            } else {
                None
            },
    {
        if x < self.width && y < self.height && c < self.channels {
            Some(self.sample(x, y, c))
        } else {
            None
        }
    }
}

/// A shape whose pixel count exceeds the machine word cannot be matched by
/// any buffer.
proof fn lemma_product_too_long(w: int, h: int, n: int, len: int)
    requires
        w * h > usize::MAX,
        0 <= w,
        0 <= h,
        1 <= n,
        len <= usize::MAX,
    ensures
        len != w * h * n,
{
    assert(w * h * n >= w * h) by (nonlinear_arith)
        requires
            w * h >= 0,
            n >= 1,
    ;
}

} // verus!
