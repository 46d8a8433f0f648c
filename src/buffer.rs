//! A two-dimensional grid of pixels over a flat, row-major block of channel
//! values.
use vstd::prelude::*;

use crate::traits::{Color, ImageView, Primitive};

verus! {

/// `(q * n + i) / n == q` and `(q * n + i) % n == i` for `0 <= i < n`.
proof fn lemma_split_index(q: int, n: int, i: int)
    requires
        0 <= q,
        0 <= i < n,
    ensures
        (q * n + i) / n == q,
        (q * n + i) % n == i,
{
    vstd::arithmetic::div_mod::lemma_fundamental_div_mod_converse(q * n + i, n, q, i);
}

/// `data` holds the channels of `pixels`, one pixel after the other.
pub open spec fn holds_pixels<C: Color>(data: Seq<C::Subpixel>, pixels: Seq<C>) -> bool {
    &&& data.len() == pixels.len() * C::spec_channel_count()
    &&& forall|k: int|
        0 <= k < data.len() ==> #[trigger] data[k] == pixels[k / C::spec_channel_count() as int].spec_channels()[k
            % C::spec_channel_count() as int]
}

/// Appending the channels of one more pixel keeps `holds_pixels`.
proof fn lemma_holds_push<C: Color>(data: Seq<C::Subpixel>, pixels: Seq<C>, p: C)
    requires
        holds_pixels(data, pixels),
    ensures
        holds_pixels(data + p.spec_channels(), pixels.push(p)),
{
    C::lemma_channel_count(p);
    let n = C::spec_channel_count() as int;
    let m = pixels.len() as int;
    let d = data + p.spec_channels();
    assert(d.len() == (m + 1) * n) by (nonlinear_arith)
        requires
            d.len() == m * n + n,
    ;
    assert forall|k: int| 0 <= k < d.len() implies #[trigger] d[k] == pixels.push(p)[k / n].spec_channels()[k % n] by {
        if k < data.len() {
            vstd::arithmetic::div_mod::lemma_fundamental_div_mod(k, n);
            assert(k / n < m) by (nonlinear_arith)
                requires
                    k == n * (k / n) + k % n,
                    0 <= k % n,
                    k < m * n,
                    0 < n,
            ;
        } else {
            lemma_split_index(m, n, k - m * n);
        }
    }
}

/// The channels of pixel `m` of a block that holds `pixels`.
proof fn lemma_holds_pixel<C: Color>(data: Seq<C::Subpixel>, pixels: Seq<C>, m: int)
    requires
        holds_pixels(data, pixels),
        0 <= m < pixels.len(),
    ensures
        m * C::spec_channel_count() + C::spec_channel_count() <= data.len(),
        data.subrange(
            m * C::spec_channel_count(),
            m * C::spec_channel_count() + C::spec_channel_count(),
        ) == pixels[m].spec_channels(),
{
    C::lemma_channel_count(pixels[m]);
    let n = C::spec_channel_count() as int;
    assert(m * n + n <= pixels.len() * n) by (nonlinear_arith)
        requires
            m < pixels.len(),
            0 < n,
    ;
    let s = data.subrange(m * n, m * n + n);
    assert forall|i: int| 0 <= i < n implies #[trigger] s[i] == pixels[m].spec_channels()[i] by {
        lemma_split_index(m, n, i);
    }
    assert(s =~= pixels[m].spec_channels());
}

/// `(y * w + x) / w == y` and `(y * w + x) % w == x` for `x < w`, and the
/// index lies below `w * h` for `y < h`.
proof fn lemma_row_major(x: int, y: int, w: int, h: int)
    requires
        0 <= x < w,
        0 <= y < h,
    ensures
        (y * w + x) / w == y,
        (y * w + x) % w == x,
        0 <= y * w + x < w * h,
{
    lemma_split_index(y, w, x);
    assert(y * w + x < w * h) by (nonlinear_arith)
        requires
            0 <= x < w,
            0 <= y < h,
    ;
    assert(0 <= y * w) by (nonlinear_arith)
        requires
            0 <= y,
            0 <= w,
    ;
}

/// `f(x, y)` may return `p`, whose channels are `c`.
pub open spec fn returned_pixel<C: Color, F: Fn(u32, u32) -> C>(
    f: F,
    x: u32,
    y: u32,
    p: C,
    c: Seq<C::Subpixel>,
) -> bool {
    f.ensures((x, y), p) && p.spec_channels() == c
}

/// `f(x, y)` may return a pixel whose channels are `c`.
pub open spec fn returned_by<C: Color, F: Fn(u32, u32) -> C>(
    f: F,
    x: u32,
    y: u32,
    c: Seq<C::Subpixel>,
) -> bool {
    exists|p: C| #[trigger] returned_pixel(f, x, y, p, c)
}

/// Appends the channels of `p` to `data`.
fn push_pixel<C: Color>(data: &mut Vec<C::Subpixel>, p: &C)
    requires
        old(data)@.len() + C::spec_channel_count() <= usize::MAX,
    ensures
        final(data)@ == old(data)@ + p.spec_channels(),
{
    let src = p.channels();
    proof {
        C::lemma_channel_count(*p);
    }
    let n = src.len();
    let mut i: usize = 0;
    while i < n
        invariant
            n == src@.len(),
            src@ == p.spec_channels(),
            old(data)@.len() + n <= usize::MAX,
            i <= n,
            data@ == old(data)@ + src@.take(i as int),
        decreases n - i,
    {
        data.push(src[i]);
        i = i + 1;
        assert(data@ =~= old(data)@ + src@.take(i as int));
    }
    assert(src@.take(n as int) =~= src@);
}

/// Room for one more pixel after `m` of them, below `count` pixels.
proof fn lemma_room(m: int, count: int, n: int)
    requires
        0 <= m < count,
        1 <= n,
    ensures
        m * n + n <= count * n,
{
    assert(m * n + n <= count * n) by (nonlinear_arith)
        requires
            m < count,
            1 <= n,
    ;
}

/// An image: `width * height` pixels of type `P`, stored row by row in a
/// flat vector of channel values that may be longer than needed.
#[derive(Clone)]
pub struct ImageBuffer<P: Color> {
    width: u32,
    height: u32,
    data: Vec<P::Subpixel>,
}

impl<P: Color> ImageBuffer<P> {
    /// The width in pixels.
    pub closed spec fn spec_width(&self) -> nat {
        self.width as nat
    }

    /// The height in pixels.
    pub closed spec fn spec_height(&self) -> nat {
        self.height as nat
    }

    /// The flat storage.
    pub closed spec fn raw(&self) -> Seq<P::Subpixel> {
        self.data@
    }

    /// The storage holds every pixel. Every buffer satisfies this: the
    /// constructors establish it and the methods keep it.
    pub open spec fn well_formed(&self) -> bool {
        self.spec_width() * self.spec_height() * P::spec_channel_count() <= self.raw().len()
    }

    /// Where pixel `(x, y)` starts in the flat storage.
    pub open spec fn offset(&self, x: int, y: int) -> int {
        (y * self.spec_width() + x) * P::spec_channel_count()
    }

    /// The channels of pixel `(x, y)`.
    pub open spec fn pixel_at(&self, x: int, y: int) -> Seq<P::Subpixel> {
        self.raw().subrange(self.offset(x, y), self.offset(x, y) + P::spec_channel_count())
    }

    /// The flat storage after writing the channels `c` over pixel `(x, y)`.
    pub open spec fn raw_with_pixel(&self, x: int, y: int, c: Seq<P::Subpixel>) -> Seq<
        P::Subpixel,
    > {
        self.raw().subrange(0, self.offset(x, y)) + c + self.raw().subrange(
            self.offset(x, y) + P::spec_channel_count(),
            self.raw().len() as int,
        )
    }

    /// The channels of the `m`-th pixel in row-major order.
    pub open spec fn pixel_by_index(&self, m: int) -> Seq<P::Subpixel> {
        self.raw().subrange(m * P::spec_channel_count(), (m + 1) * P::spec_channel_count())
    }

    /// The channels of all pixels, in row-major order.
    pub open spec fn all_pixels(&self) -> Seq<Seq<P::Subpixel>> {
        Seq::new(self.spec_width() * self.spec_height(), |m: int| self.pixel_by_index(m))
    }

    /// Pixel `(x, y)` lies within the storage.
    proof fn lemma_in_storage(&self, x: int, y: int)
        requires
            self.well_formed(),
            0 <= x < self.spec_width(),
            0 <= y < self.spec_height(),
        ensures
            0 <= self.offset(x, y),
            self.offset(x, y) + P::spec_channel_count() <= self.raw().len(),
            self.offset(x, y) + P::spec_channel_count() <= self.spec_width() * self.spec_height()
                * P::spec_channel_count(),
            y * self.spec_width() <= y * self.spec_width() + x <= self.offset(x, y),
    {
        P::lemma_channel_count(arbitrary());
        let w = self.spec_width() as int;
        let h = self.spec_height() as int;
        let n = P::spec_channel_count() as int;
        lemma_row_major(x, y, w, h);
        assert((y * w + x) * n + n <= w * h * n) by (nonlinear_arith)
            requires
                y * w + x < w * h,
                0 <= n,
        ;
        assert(0 <= y * w + x <= (y * w + x) * n) by (nonlinear_arith)
            requires
                0 <= y * w + x,
                1 <= n,
        ;
    }

    /// Constructs a buffer from a flat vector of channel values.
    ///
    /// Returns `None` if the vector is not long enough to hold
    /// `width * height` pixels.
    pub fn from_raw(width: u32, height: u32, buf: Vec<P::Subpixel>) -> (r: Option<Self>)
        ensures
            r is Some <==> width * height * P::spec_channel_count() <= buf@.len(),
            r matches Some(b) ==> {
                &&& b.spec_width() == width
                &&& b.spec_height() == height
                &&& b.raw() == buf@
                &&& b.well_formed()
            },
    {
        let n = P::channel_count();
        let len = buf.len();
        match (width as usize).checked_mul(height as usize) {
            None => {
                proof {
                    P::lemma_channel_count(arbitrary());
                }
                assert(width * height * n >= width * height) by (nonlinear_arith)
                    requires
                        n >= 1,
                ;
                None
            },
            Some(pixels) => match pixels.checked_mul(n) {
                None => None,
                Some(needed) => {
                    if needed <= len {
                        Some(ImageBuffer { width, height, data: buf })
                    } else {
                        None
                    }
                },
            },
        }
    }

    /// Returns the flat storage.
    pub fn into_raw(self) -> (r: Vec<P::Subpixel>)
        ensures
            r@ == self.raw(),
    {
        self.data
    }

    /// The width and height of this image.
    pub fn dimensions(&self) -> (r: (u32, u32))
        ensures
            r.0 == self.spec_width(),
            r.1 == self.spec_height(),
    {
        (self.width, self.height)
    }

    /// The width of this image.
    pub fn width(&self) -> (r: u32)
        ensures
            r == self.spec_width(),
    {
        self.width
    }

    /// The height of this image.
    pub fn height(&self) -> (r: u32)
        ensures
            r == self.spec_height(),
    {
        self.height
    }

    /// The pixel at `(x, y)`.
    ///
    /// `(x, y)` must lie within the image.
    pub fn get_pixel(&self, x: u32, y: u32) -> (r: P)
        requires
            self.well_formed(),
            x < self.spec_width(),
            y < self.spec_height(),
        ensures
            r.spec_channels() == self.pixel_at(x as int, y as int),
            r == P::spec_from_channels(self.pixel_at(x as int, y as int)),
    {
        proof {
            self.lemma_in_storage(x as int, y as int);
        }
        let n = P::channel_count();
        // the storage length, which bounds every index, fits in usize
        let len = self.data.len();
        let index = (y as usize * self.width as usize + x as usize) * n;
        P::from_slice(&self.data.as_slice()[index..index + n])
    }

    /// Sets the pixel at `(x, y)` to `pixel`; every other channel value
    /// keeps its value.
    ///
    /// `(x, y)` must lie within the image.
    pub fn put_pixel(&mut self, x: u32, y: u32, pixel: P)
        requires
            old(self).well_formed(),
            x < old(self).spec_width(),
            y < old(self).spec_height(),
        ensures
            final(self).spec_width() == old(self).spec_width(),
            final(self).spec_height() == old(self).spec_height(),
            final(self).raw().len() == old(self).raw().len(),
            final(self).well_formed(),
            final(self).pixel_at(x as int, y as int) == pixel.spec_channels(),
            final(self).raw() == old(self).raw_with_pixel(x as int, y as int, pixel.spec_channels()),
    {
        proof {
            self.lemma_in_storage(x as int, y as int);
            P::lemma_channel_count(pixel);
        }
        let n = P::channel_count();
        // the storage length, which bounds every index, fits in usize
        let len = self.data.len();
        let index = (y as usize * self.width as usize + x as usize) * n;
        let src = pixel.channels();
        let mut i: usize = 0;
        while i < n
            invariant
                n == P::spec_channel_count(),
                src@ == pixel.spec_channels(),
                src@.len() == n,
                index == old(self).offset(x as int, y as int),
                index + n <= old(self).raw().len(),
                len == old(self).raw().len(),
                i <= n,
                self.width == old(self).width,
                self.height == old(self).height,
                self.data@.len() == old(self).data@.len(),
                forall|j: int| 0 <= j < i ==> #[trigger] self.data@[index + j] == src@[j],
                forall|k: int|
                    0 <= k < old(self).data@.len() && !(index <= k < index + i) ==> #[trigger] self.data@[k]
                        == old(self).data@[k],
            decreases n - i,
        {
            self.data.set(index + i, src[i]);
            i = i + 1;
        }
        proof {
            assert(self.offset(x as int, y as int) == index);
            assert forall|j: int| 0 <= j < n implies #[trigger] self.pixel_at(x as int, y as int)[j]
                == pixel.spec_channels()[j] by {
                assert(self.data@[index + j] == src@[j]);
            }
            assert(self.pixel_at(x as int, y as int) =~= pixel.spec_channels());
            assert(self.raw() =~= old(self).raw_with_pixel(x as int, y as int, pixel.spec_channels()));
        }
    }

    /// A vector of `len` zeros.
    fn zeros(len: usize) -> (r: Vec<P::Subpixel>)
        ensures
            r@.len() == len,
            forall|k: int| 0 <= k < len ==> #[trigger] r@[k] == P::Subpixel::spec_zero(),
    {
        let zero = P::Subpixel::zero();
        let mut data: Vec<P::Subpixel> = Vec::new();
        let mut i: usize = 0;
        while i < len
            invariant
                i <= len,
                data@.len() == i,
                zero == P::Subpixel::spec_zero(),
                forall|k: int| 0 <= k < i ==> #[trigger] data@[k] == zero,
            decreases len - i,
        {
            data.push(zero);
            i = i + 1;
        }
        data
    }

    /// Creates a buffer of `width * height` pixels whose channels are all
    /// zero.
    ///
    /// The channel count must fit in `usize`.
    pub fn new(width: u32, height: u32) -> (r: Self)
        requires
            width * height * P::spec_channel_count() <= usize::MAX,
        ensures
            r.spec_width() == width,
            r.spec_height() == height,
            r.raw().len() == width * height * P::spec_channel_count(),
            r.well_formed(),
            forall|k: int| 0 <= k < r.raw().len() ==> #[trigger] r.raw()[k] == P::Subpixel::spec_zero(),
    {
        let n = P::channel_count();
        proof {
            P::lemma_channel_count(arbitrary());
            assert(width * height <= width * height * n) by (nonlinear_arith)
                requires
                    n >= 1,
            ;
        }
        let len = width as usize * height as usize * n;
        ImageBuffer { width, height, data: Self::zeros(len) }
    }

    /// The pixels of a buffer whose storage holds `pixels`, row by row.
    proof fn lemma_pixels_of(&self, pixels: Seq<P>)
        requires
            holds_pixels(self.raw(), pixels),
            pixels.len() == self.spec_width() * self.spec_height(),
        ensures
            forall|x: int, y: int|
                0 <= x < self.spec_width() && 0 <= y < self.spec_height() ==> #[trigger] self.pixel_at(
                    x,
                    y,
                ) == pixels[y * self.spec_width() + x].spec_channels(),
    {
        assert forall|x: int, y: int|
            0 <= x < self.spec_width() && 0 <= y < self.spec_height() implies #[trigger] self.pixel_at(
            x,
            y,
        ) == pixels[y * self.spec_width() + x].spec_channels() by {
            lemma_row_major(x, y, self.spec_width() as int, self.spec_height() as int);
            lemma_holds_pixel(self.raw(), pixels, y * self.spec_width() + x);
        }
    }

    /// Constructs a buffer of `width * height` copies of `pixel`.
    ///
    /// The channel count must fit in `usize`.
    pub fn from_pixel(width: u32, height: u32, pixel: P) -> (r: Self)
        requires
            width * height * P::spec_channel_count() <= usize::MAX,
        ensures
            r.spec_width() == width,
            r.spec_height() == height,
            r.raw().len() == width * height * P::spec_channel_count(),
            r.well_formed(),
            forall|x: int, y: int|
                0 <= x < width && 0 <= y < height ==> #[trigger] r.pixel_at(x, y)
                    == pixel.spec_channels(),
    {
        let n = P::channel_count();
        proof {
            P::lemma_channel_count(pixel);
            assert(width * height <= width * height * n) by (nonlinear_arith)
                requires
                    n >= 1,
            ;
        }
        let count = width as usize * height as usize;
        let mut data: Vec<P::Subpixel> = Vec::new();
        let ghost mut pixels: Seq<P> = Seq::empty();
        let mut m: usize = 0;
        while m < count
            invariant
                count == width * height,
                count * n <= usize::MAX,
                n == P::spec_channel_count(),
                1 <= n,
                m <= count,
                pixels.len() == m,
                holds_pixels(data@, pixels),
                forall|k: int| 0 <= k < m ==> #[trigger] pixels[k] == pixel,
            decreases count - m,
        {
            proof {
                lemma_room(m as int, count as int, n as int);
                lemma_holds_push(data@, pixels, pixel);
            }
            push_pixel(&mut data, &pixel);
            proof {
                pixels = pixels.push(pixel);
            }
            m = m + 1;
        }
        let r = ImageBuffer { width, height, data };
        proof {
            r.lemma_pixels_of(pixels);
            assert forall|x: int, y: int|
                0 <= x < width && 0 <= y < height implies #[trigger] r.pixel_at(x, y)
                == pixel.spec_channels() by {
                lemma_row_major(x, y, width as int, height as int);
            }
        }
        r
    }

    /// Constructs a buffer whose pixel `(x, y)` is `f(x, y)`; `f` is called
    /// once for each pixel, in row-major order.
    ///
    /// The channel count must fit in `usize`.
    pub fn from_fn<F: Fn(u32, u32) -> P>(width: u32, height: u32, f: F) -> (r: Self)
        requires
            width * height * P::spec_channel_count() <= usize::MAX,
            forall|x: u32, y: u32| x < width && y < height ==> #[trigger] f.requires((x, y)),
        ensures
            r.spec_width() == width,
            r.spec_height() == height,
            r.raw().len() == width * height * P::spec_channel_count(),
            r.well_formed(),
            forall|x: u32, y: u32|
                x < width && y < height ==> #[trigger] returned_by(
                    f,
                    x,
                    y,
                    r.pixel_at(x as int, y as int),
                ),
    {
        let n = P::channel_count();
        proof {
            P::lemma_channel_count(arbitrary());
            assert(width * height <= width * height * n) by (nonlinear_arith)
                requires
                    n >= 1,
            ;
        }
        let mut data: Vec<P::Subpixel> = Vec::new();
        let ghost mut pixels: Seq<P> = Seq::empty();
        let mut y: u32 = 0;
        while y < height
            invariant
                width * height * n <= usize::MAX,
                n == P::spec_channel_count(),
                1 <= n,
                y <= height,
                pixels.len() == y * width,
                holds_pixels(data@, pixels),
                forall|x: u32, y: u32| x < width && y < height ==> #[trigger] f.requires((x, y)),
                forall|m: int|
                    0 <= m < pixels.len() ==> f.ensures(
                        ((m % width as int) as u32, (m / width as int) as u32),
                        #[trigger] pixels[m],
                    ),
            decreases height - y,
        {
            let mut x: u32 = 0;
            while x < width
                invariant
                    width * height * n <= usize::MAX,
                    n == P::spec_channel_count(),
                    1 <= n,
                    y < height,
                    x <= width,
                    pixels.len() == y * width + x,
                    holds_pixels(data@, pixels),
                    forall|x: u32, y: u32| x < width && y < height ==> #[trigger] f.requires((x, y)),
                    forall|m: int|
                        0 <= m < pixels.len() ==> f.ensures(
                            ((m % width as int) as u32, (m / width as int) as u32),
                            #[trigger] pixels[m],
                        ),
                decreases width - x,
            {
                let p = f(x, y);
                proof {
                    lemma_row_major(x as int, y as int, width as int, height as int);
                    lemma_room(y * width + x, width * height, n as int);
                    lemma_holds_push(data@, pixels, p);
                }
                push_pixel(&mut data, &p);
                proof {
                    pixels = pixels.push(p);
                }
                x = x + 1;
            }
            assert(pixels.len() == (y + 1) * width) by (nonlinear_arith)
                requires
                    pixels.len() == y * width + width,
            ;
            y = y + 1;
        }
        assert(pixels.len() == width * height) by (nonlinear_arith)
            requires
                pixels.len() == height * width,
        ;
        let r = ImageBuffer { width, height, data };
        proof {
            r.lemma_pixels_of(pixels);
            assert forall|x: u32, y: u32|
                x < width && y < height implies #[trigger] returned_by(
                f,
                x,
                y,
                r.pixel_at(x as int, y as int),
            ) by {
                let m = y * width + x;
                lemma_row_major(x as int, y as int, width as int, height as int);
                assert(f.ensures(((m % width as int) as u32, (m / width as int) as u32), pixels[m]));
                assert((m % width as int) as u32 == x);
                assert((m / width as int) as u32 == y);
                assert(f.ensures((x, y), pixels[m]));
                assert(r.pixel_at(x as int, y as int) == pixels[m].spec_channels());
                assert(returned_pixel(f, x, y, pixels[m], r.pixel_at(x as int, y as int)));
            }
        }
        r
    }

    /// Converts every pixel to the color type `Q`, into a new buffer of the
    /// same dimensions.
    ///
    /// The channel count of the new buffer must fit in `usize`.
    pub fn convert_buffer<Q: Color + From<P>>(&self) -> (r: ImageBuffer<Q>)
        requires
            self.well_formed(),
            self.spec_width() * self.spec_height() * Q::spec_channel_count() <= usize::MAX,
        ensures
            r.spec_width() == self.spec_width(),
            r.spec_height() == self.spec_height(),
            r.raw().len() == self.spec_width() * self.spec_height() * Q::spec_channel_count(),
            r.well_formed(),
            <Q as vstd::std_specs::convert::FromSpec<P>>::obeys_from_spec() ==> forall|x: int, y: int|
                0 <= x < self.spec_width() && 0 <= y < self.spec_height() ==> #[trigger] r.pixel_at(
                    x,
                    y,
                ) == <Q as vstd::std_specs::convert::FromSpec<P>>::from_spec(
                    P::spec_from_channels(self.pixel_at(x, y)),
                ).spec_channels(),
    {
        let n = P::channel_count();
        let qn = Q::channel_count();
        let width = self.width;
        let height = self.height;
        // the storage length, which bounds every index, fits in usize
        let len = self.data.len();
        proof {
            P::lemma_channel_count(arbitrary());
            Q::lemma_channel_count(arbitrary());
            assert(width * height <= width * height * qn) by (nonlinear_arith)
                requires
                    qn >= 1,
            ;
        }
        let count = width as usize * height as usize;
        let mut data: Vec<Q::Subpixel> = Vec::new();
        let ghost mut pixels: Seq<Q> = Seq::empty();
        let mut m: usize = 0;
        while m < count
            invariant
                count == width * height,
                width == self.spec_width(),
                height == self.spec_height(),
                count * n <= self.raw().len(),
                len == self.raw().len(),
                count * qn <= usize::MAX,
                n == P::spec_channel_count(),
                qn == Q::spec_channel_count(),
                1 <= n,
                1 <= qn,
                m <= count,
                pixels.len() == m,
                holds_pixels(data@, pixels),
                forall|k: int|
                    0 <= k < m ==> <Q as vstd::std_specs::convert::FromSpec<P>>::obeys_from_spec()
                        ==> #[trigger] pixels[k]
                        == <Q as vstd::std_specs::convert::FromSpec<P>>::from_spec(
                        P::spec_from_channels(self.raw().subrange(k * n, k * n + n)),
                    ),
            decreases count - m,
        {
            proof {
                lemma_room(m as int, count as int, n as int);
                lemma_room(m as int, count as int, qn as int);
            }
            let start = m * n;
            let from = P::from_slice(&self.data.as_slice()[start..start + n]);
            let to = Q::from(from);
            proof {
                lemma_holds_push(data@, pixels, to);
            }
            push_pixel(&mut data, &to);
            proof {
                pixels = pixels.push(to);
            }
            m = m + 1;
        }
        let r = ImageBuffer { width, height, data };
        proof {
            r.lemma_pixels_of(pixels);
            assert forall|x: int, y: int|
                0 <= x < width && 0 <= y < height implies (
                <Q as vstd::std_specs::convert::FromSpec<P>>::obeys_from_spec() ==> #[trigger] r.pixel_at(
                    x,
                    y,
                ) == <Q as vstd::std_specs::convert::FromSpec<P>>::from_spec(
                    P::spec_from_channels(self.pixel_at(x, y)),
                ).spec_channels()) by {
                lemma_row_major(x, y, width as int, height as int);
                let k = y * width + x;
                assert(r.pixel_at(x, y) == pixels[k].spec_channels());
                assert(self.pixel_at(x, y) == self.raw().subrange(k * n, k * n + n));
            }
        }
        r
    }

    /// The number of pixels.
    fn pixel_count(&self) -> (r: usize)
        requires
            self.well_formed(),
        ensures
            r == self.spec_width() * self.spec_height(),
    {
        // the storage length, which bounds every index, fits in usize
        let len = self.data.len();
        proof {
            P::lemma_channel_count(arbitrary());
            let c = self.spec_width() * self.spec_height();
            assert(c <= c * P::spec_channel_count()) by (nonlinear_arith)
                requires
                    P::spec_channel_count() >= 1,
            ;
        }
        self.width as usize * self.height as usize
    }

    /// Returns an iterator over the pixels of this image, in row-major order.
    pub fn pixels(&self) -> (r: Pixels<'_, P>)
        requires
            self.well_formed(),
        ensures
            r.valid(),
            r.remaining() == self.all_pixels(),
    {
        let r = Pixels { buffer: self, front: 0, back: self.pixel_count() };
        assert(r.remaining() =~= self.all_pixels());
        r
    }

    /// Returns an iterator over the pixels of this image, in row-major order,
    /// each with its coordinates.
    pub fn enumerate_pixels(&self) -> (r: EnumeratePixels<'_, P>)
        requires
            self.well_formed(),
        ensures
            r.valid(),
            r.remaining() == Seq::new(
                self.spec_width() * self.spec_height(),
                |m: int|
                    (
                        m % self.spec_width() as int,
                        m / self.spec_width() as int,
                        self.pixel_by_index(m),
                    ),
            ),
    {
        let pixels = Pixels { buffer: self, front: 0, back: self.pixel_count() };
        let r = EnumeratePixels { pixels, x: 0, y: 0, width: self.width };
        assert(r.remaining() =~= Seq::new(
            self.spec_width() * self.spec_height(),
            |m: int|
                (m % self.spec_width() as int, m / self.spec_width() as int, self.pixel_by_index(m)),
        ));
        r
    }

    /// Reading pixel `(x, y)` after writing `pixel` there gives back `pixel`,
    /// and the dimensions and every other pixel stay as they were.
    pub proof fn lemma_read_after_write(
        before: Self,
        after: Self,
        x: int,
        y: int,
        pixel: P,
        x2: int,
        y2: int,
    )
        requires
            before.well_formed(),
            0 <= x < before.spec_width(),
            0 <= y < before.spec_height(),
            after.spec_width() == before.spec_width(),
            after.spec_height() == before.spec_height(),
            after.raw() == before.raw_with_pixel(x, y, pixel.spec_channels()),
            0 <= x2 < before.spec_width(),
            0 <= y2 < before.spec_height(),
        ensures
            after.well_formed(),
            after.pixel_at(x, y) == pixel.spec_channels(),
            (x2, y2) != (x, y) ==> after.pixel_at(x2, y2) == before.pixel_at(x2, y2),
    {
        P::lemma_channel_count(pixel);
        before.lemma_in_storage(x, y);
        before.lemma_in_storage(x2, y2);
        let w = before.spec_width() as int;
        let h = before.spec_height() as int;
        let n = P::spec_channel_count() as int;
        assert(after.pixel_at(x, y) =~= pixel.spec_channels());
        if (x2, y2) != (x, y) {
            let m = y * w + x;
            let m2 = y2 * w + x2;
            lemma_row_major(x, y, w, h);
            lemma_row_major(x2, y2, w, h);
            assert(m != m2);
            if m < m2 {
                assert(m * n + n <= m2 * n) by (nonlinear_arith)
                    requires
                        m < m2,
                        n >= 1,
                ;
            } else {
                assert(m2 * n + n <= m * n) by (nonlinear_arith)
                    requires
                        m2 < m,
                        n >= 1,
                ;
            }
            assert(after.pixel_at(x2, y2) =~= before.pixel_at(x2, y2));
        }
    }
}

impl<P: Color> ImageView<P> for ImageBuffer<P> {
    open spec fn view_width(&self) -> nat {
        self.spec_width()
    }

    open spec fn view_height(&self) -> nat {
        self.spec_height()
    }

    open spec fn view_valid(&self) -> bool {
        self.well_formed()
    }

    open spec fn view_pixel(&self, x: int, y: int) -> Seq<P::Subpixel> {
        self.pixel_at(x, y)
    }

    fn view_dimensions(&self) -> (r: (u32, u32)) {
        self.dimensions()
    }

    fn pixel(&self, x: u32, y: u32) -> (r: P) {
        self.get_pixel(x, y)
    }

    fn set_pixel(&mut self, x: u32, y: u32, pixel: P) {
        let ghost before = *self;
        self.put_pixel(x, y, pixel);
        proof {
            let after = *self;
            assert(after.pixel_at(x as int, y as int) == pixel.spec_channels());
            assert(<ImageBuffer<P> as ImageView<P>>::view_pixel(&after, x as int, y as int)
                == after.pixel_at(x as int, y as int));
            assert forall|x2: int, y2: int|
                0 <= x2 < before.spec_width() && 0 <= y2 < before.spec_height() && (x2, y2) != (
                    x as int,
                    y as int,
                ) implies #[trigger] self.pixel_at(x2, y2) == before.pixel_at(x2, y2) by {
                ImageBuffer::lemma_read_after_write(
                    before,
                    *self,
                    x as int,
                    y as int,
                    pixel,
                    x2,
                    y2,
                );
            }
        }
    }
}

/// Iterator over the pixels of an image, from either end.
pub struct Pixels<'a, P: Color> {
    buffer: &'a ImageBuffer<P>,
    front: usize,
    back: usize,
}

impl<'a, P: Color> Pixels<'a, P> {
    /// The iterator is in a consistent state.
    pub closed spec fn valid(&self) -> bool {
        &&& self.buffer.well_formed()
        &&& self.front <= self.back <= self.buffer.spec_width() * self.buffer.spec_height()
    }

    /// The channels of the pixels that are still to come, in order.
    pub closed spec fn remaining(&self) -> Seq<Seq<P::Subpixel>> {
        Seq::new((self.back - self.front) as nat, |i: int| self.buffer.pixel_by_index(self.front + i))
    }

    /// The pixel with index `m`, which lies within the image.
    fn read(&self, m: usize) -> (r: P)
        requires
            self.valid(),
            m < self.buffer.spec_width() * self.buffer.spec_height(),
        ensures
            r.spec_channels() == self.buffer.pixel_by_index(m as int),
            r == P::spec_from_channels(self.buffer.pixel_by_index(m as int)),
    {
        let n = P::channel_count();
        // the storage length, which bounds every index, fits in usize
        let len = self.buffer.data.len();
        proof {
            P::lemma_channel_count(arbitrary());
            lemma_room(
                m as int,
                (self.buffer.spec_width() * self.buffer.spec_height()) as int,
                n as int,
            );
            assert((m + 1) * n == m * n + n) by (nonlinear_arith);
        }
        let start = m * n;
        P::from_slice(&self.buffer.data.as_slice()[start..start + n])
    }

    /// Returns the next pixel from the front, or `None` when none is left.
    pub fn next(&mut self) -> (r: Option<P>)
        requires
            old(self).valid(),
        ensures
            final(self).valid(),
            old(self).remaining().len() == 0 ==> r is None && final(self).remaining() == old(
                self,
            ).remaining(),
            old(self).remaining().len() > 0 ==> r == Some(
                P::spec_from_channels(old(self).remaining()[0]),
            ) && final(self).remaining() == old(self).remaining().drop_first(),
    {
        if self.front < self.back {
            let p = self.read(self.front);
            self.front = self.front + 1;
            assert(self.remaining() =~= old(self).remaining().drop_first());
            Some(p)
        } else {
            None
        }
    }

    /// Returns the next pixel from the back, or `None` when none is left.
    pub fn next_back(&mut self) -> (r: Option<P>)
        requires
            old(self).valid(),
        ensures
            final(self).valid(),
            old(self).remaining().len() == 0 ==> r is None && final(self).remaining() == old(
                self,
            ).remaining(),
            old(self).remaining().len() > 0 ==> r == Some(
                P::spec_from_channels(old(self).remaining().last()),
            ) && final(self).remaining() == old(self).remaining().drop_last(),
    {
        if self.front < self.back {
            self.back = self.back - 1;
            let p = self.read(self.back);
            assert(self.remaining() =~= old(self).remaining().drop_last());
            Some(p)
        } else {
            None
        }
    }
}

/// Iterator over the pixels of an image together with their coordinates.
///
/// The coordinates come from a running counter that restarts at every row.
pub struct EnumeratePixels<'a, P: Color> {
    pixels: Pixels<'a, P>,
    x: u32,
    y: u32,
    width: u32,
}

impl<'a, P: Color> EnumeratePixels<'a, P> {
    /// The iterator is in a consistent state.
    pub closed spec fn valid(&self) -> bool {
        &&& self.pixels.valid()
        &&& self.width == self.pixels.buffer.spec_width()
        &&& self.pixels.back == self.pixels.buffer.spec_width() * self.pixels.buffer.spec_height()
        &&& self.y * self.width + self.x == self.pixels.front
        &&& self.x <= self.width
        &&& self.y <= self.pixels.buffer.spec_height()
    }

    /// The coordinates and channels of the pixels that are still to come, in
    /// order.
    pub closed spec fn remaining(&self) -> Seq<(int, int, Seq<P::Subpixel>)> {
        Seq::new(
            (self.pixels.back - self.pixels.front) as nat,
            |i: int|
                (
                    (self.pixels.front + i) % self.width as int,
                    (self.pixels.front + i) / self.width as int,
                    self.pixels.buffer.pixel_by_index(self.pixels.front + i),
                ),
        )
    }

    /// Returns the next pixel with its coordinates `(x, y, pixel)`, or `None`
    /// when none is left.
    pub fn next(&mut self) -> (r: Option<(u32, u32, P)>)
        requires
            old(self).valid(),
        ensures
            final(self).valid(),
            old(self).remaining().len() == 0 ==> r is None && final(self).remaining() == old(
                self,
            ).remaining(),
            old(self).remaining().len() > 0 ==> r == Some(
                (
                    old(self).remaining()[0].0 as u32,
                    old(self).remaining()[0].1 as u32,
                    P::spec_from_channels(old(self).remaining()[0].2),
                ),
            ) && final(self).remaining() == old(self).remaining().drop_first(),
    {
        if self.pixels.front >= self.pixels.back {
            return None;
        }
        let ghost front = self.pixels.front as int;
        let ghost h = self.pixels.buffer.spec_height() as int;
        let ghost w = self.width as int;
        proof {
            assert(w > 0) by (nonlinear_arith)
                requires
                    0 <= front < w * h,
                    0 <= h,
            ;
        }
        if self.x >= self.width {
            proof {
                let y0 = self.y as int;
                assert((y0 + 1) * w == y0 * w + w) by (nonlinear_arith);
                assert(y0 + 1 < h + 1) by (nonlinear_arith)
                    requires
                        (y0 + 1) * w == front,
                        front < w * h,
                        w > 0,
                ;
            }
            self.x = 0;
            self.y = self.y + 1;
        }
        let x = self.x;
        let y = self.y;
        proof {
            assert(y < h) by (nonlinear_arith)
                requires
                    y * w + x == front,
                    front < w * h,
                    0 <= x,
                    w > 0,
            ;
            lemma_split_index(y as int, w, x as int);
        }
        self.x = self.x + 1;
        let p = self.pixels.read(self.pixels.front);
        self.pixels.front = self.pixels.front + 1;
        assert(self.remaining() =~= old(self).remaining().drop_first());
        Some((x, y, p))
    }
}

} // verus!
