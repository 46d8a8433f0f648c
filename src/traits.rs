use vstd::prelude::*;

verus! {

/// A numeric type whose values can serve as color channels.
///
/// Every channel value stands for a mathematical integer in
/// `0..=Self::max_value()`. Arithmetic wraps around modulo
/// `Self::max_value() + 1`, the way the unsigned integer types do.
pub trait Primitive: Copy + Sized {
    /// The integer this value stands for.
    spec fn value(self) -> int;

    /// The largest integer a value of this type stands for.
    spec fn max_value() -> int;

    /// The value that stands for zero.
    spec fn spec_zero() -> Self;

    /// Values lie in `0..=max_value()`, `max_value()` is positive, and
    /// `spec_zero()` stands for zero.
    proof fn lemma_range(a: Self)
        ensures
            0 <= a.value() <= Self::max_value(),
            0 < Self::max_value(),
            Self::spec_zero().value() == 0,
    ;

    /// A value is determined by the integer it stands for.
    proof fn lemma_value_injective(a: Self, b: Self)
        requires
            a.value() == b.value(),
        ensures
            a == b,
    ;

    /// The value zero.
    fn zero() -> (r: Self)
        ensures
            r == Self::spec_zero(),
            r.value() == 0,
    ;

    /// Compares two values.
    fn less_than(self, other: Self) -> (r: bool)
        ensures
            r == (self.value() < other.value()),
    ;

    /// Sum, wrapping on overflow.
    fn add_wrapping(self, other: Self) -> (r: Self)
        ensures
            r.value() == (self.value() + other.value()) % (Self::max_value() + 1),
    ;

    /// Difference, wrapping on underflow.
    fn sub_wrapping(self, other: Self) -> (r: Self)
        ensures
            r.value() == (self.value() - other.value()) % (Self::max_value() + 1),
    ;

    /// Product, wrapping on overflow.
    fn mul_wrapping(self, other: Self) -> (r: Self)
        ensures
            r.value() == (self.value() * other.value()) % (Self::max_value() + 1),
    ;

    /// Quotient, rounded towards zero.
    fn div(self, other: Self) -> (r: Self)
        requires
            other.value() != 0,
        ensures
            r.value() == self.value() / other.value(),
    ;
}

/// A pixel: a fixed number of channel values of one primitive type.
///
/// The channels of a color are modelled by `spec_channels`, a sequence whose
/// length is always `spec_channel_count()`.
pub trait Color: Copy + Sized {
    /// The type of one channel.
    type Subpixel: Primitive;

    /// The fixed-size array that backs a color.
    type Storage;

    /// The number of channels of this color type.
    spec fn spec_channel_count() -> nat;

    /// The channel values, in storage order.
    spec fn spec_channels(&self) -> Seq<Self::Subpixel>;

    /// The channel values that a backing array stands for.
    spec fn storage_channels(s: Self::Storage) -> Seq<Self::Subpixel>;

    /// The name of the color model.
    spec fn model_name() -> Seq<char>;

    /// The color with the given channel values.
    spec fn spec_from_channels(s: Seq<Self::Subpixel>) -> Self;

    /// Every color has `spec_channel_count()` channels, and that count lies
    /// in `1..=4`.
    proof fn lemma_channel_count(c: Self)
        ensures
            c.spec_channels().len() == Self::spec_channel_count(),
            1 <= Self::spec_channel_count() <= 4,
    ;

    /// A color is determined by its channels.
    proof fn lemma_from_channels(s: Seq<Self::Subpixel>)
        requires
            s.len() == Self::spec_channel_count(),
        ensures
            Self::spec_from_channels(s).spec_channels() == s,
    ;

    /// Returns the number of channels of this pixel type.
    fn channel_count() -> (r: usize)
        ensures
            r == Self::spec_channel_count(),
    ;

    /// Returns the components as a slice.
    fn channels(&self) -> (r: &[Self::Subpixel])
        ensures
            r@ == self.spec_channels(),
    ;

    /// Returns the backing array for in-place changes.
    fn channels_mut(&mut self) -> (r: &mut Self::Storage)
        ensures
            Self::storage_channels(*r) == old(self).spec_channels(),
            final(self).spec_channels() == Self::storage_channels(*final(r)),
    ;

    /// Constructs a pixel from its backing array.
    fn from_channels(c: Self::Storage) -> (r: Self)
        ensures
            r.spec_channels() == Self::storage_channels(c),
    ;

    /// Returns a string that names the meaning of each channel.
    fn color_model() -> (r: &'static str)
        ensures
            r@ == Self::model_name(),
    ;

    /// Returns the color whose channels are the values of `slice`.
    ///
    /// The slice must hold exactly `channel_count()` values.
    fn from_slice(slice: &[Self::Subpixel]) -> (r: Self)
        requires
            slice@.len() == Self::spec_channel_count(),
        ensures
            r.spec_channels() == slice@,
            r == Self::spec_from_channels(slice@),
    ;

    /// Apply the function `f` to each channel of this pixel.
    fn map<F: Fn(Self::Subpixel) -> Self::Subpixel>(&self, f: F) -> (r: Self)
        requires
            forall|v: Self::Subpixel| f.requires((v,)),
        ensures
            r.spec_channels().len() == self.spec_channels().len(),
            forall|i: int|
                0 <= i < self.spec_channels().len() ==> f.ensures(
                    (self.spec_channels()[i],),
                    #[trigger] r.spec_channels()[i],
                ),
    {
        let src = self.channels();
        proof {
            Self::lemma_channel_count(*self);
        }
        let n = src.len();
        let mut out: Vec<Self::Subpixel> = Vec::new();
        let mut i: usize = 0;
        while i < n
            invariant
                n == src@.len(),
                src@ == self.spec_channels(),
                i <= n,
                out@.len() == i,
                forall|v: Self::Subpixel| f.requires((v,)),
                forall|k: int| 0 <= k < i ==> f.ensures((src@[k],), #[trigger] out@[k]),
            decreases n - i,
        {
            let v = f(src[i]);
            out.push(v);
            i = i + 1;
        }
        Self::from_slice(out.as_slice())
    }

    /// Apply the function `f` to each channel of this pixel, in place.
    fn apply<F: Fn(Self::Subpixel) -> Self::Subpixel>(&mut self, f: F)
        requires
            forall|v: Self::Subpixel| f.requires((v,)),
        ensures
            final(self).spec_channels().len() == old(self).spec_channels().len(),
            forall|i: int|
                0 <= i < old(self).spec_channels().len() ==> f.ensures(
                    (old(self).spec_channels()[i],),
                    #[trigger] final(self).spec_channels()[i],
                ),
    {
        *self = self.map(f);
    }

    /// Apply the function `f` to each channel except the last one, and the
    /// function `g` to the last channel, which is the alpha channel of an
    /// alpha-composed color.
    fn map_with_alpha<F, G>(&self, f: F, g: G) -> (r: Self) where
        F: Fn(Self::Subpixel) -> Self::Subpixel,
        G: Fn(Self::Subpixel) -> Self::Subpixel,

        requires
            forall|v: Self::Subpixel| f.requires((v,)),
            forall|v: Self::Subpixel| g.requires((v,)),
        ensures
            r.spec_channels().len() == self.spec_channels().len(),
            forall|i: int|
                0 <= i < self.spec_channels().len() - 1 ==> f.ensures(
                    (self.spec_channels()[i],),
                    #[trigger] r.spec_channels()[i],
                ),
            g.ensures(
                (self.spec_channels().last(),),
                r.spec_channels().last(),
            ),
    {
        let src = self.channels();
        proof {
            Self::lemma_channel_count(*self);
        }
        let n = src.len();
        let mut out: Vec<Self::Subpixel> = Vec::new();
        let mut i: usize = 0;
        while i < n - 1
            invariant
                n == src@.len(),
                1 <= n,
                src@ == self.spec_channels(),
                i <= n - 1,
                out@.len() == i,
                forall|v: Self::Subpixel| f.requires((v,)),
                forall|v: Self::Subpixel| g.requires((v,)),
                forall|k: int| 0 <= k < i ==> f.ensures((src@[k],), #[trigger] out@[k]),
            decreases n - 1 - i,
        {
            let v = f(src[i]);
            out.push(v);
            i = i + 1;
        }
        let a = g(src[n - 1]);
        out.push(a);
        Self::from_slice(out.as_slice())
    }

    /// Apply the function `f` to each channel except the last one, and the
    /// function `g` to the last channel, in place.
    fn apply_with_alpha<F, G>(&mut self, f: F, g: G) where
        F: Fn(Self::Subpixel) -> Self::Subpixel,
        G: Fn(Self::Subpixel) -> Self::Subpixel,

        requires
            forall|v: Self::Subpixel| f.requires((v,)),
            forall|v: Self::Subpixel| g.requires((v,)),
        ensures
            final(self).spec_channels().len() == old(self).spec_channels().len(),
            forall|i: int|
                0 <= i < old(self).spec_channels().len() - 1 ==> f.ensures(
                    (old(self).spec_channels()[i],),
                    #[trigger] final(self).spec_channels()[i],
                ),
            g.ensures(
                (old(self).spec_channels().last(),),
                final(self).spec_channels().last(),
            ),
    {
        *self = self.map_with_alpha(f, g);
    }

    /// Apply the function `f` to each channel of this pixel and the
    /// corresponding channel of `other`.
    fn map2<F>(&self, other: &Self, f: F) -> (r: Self) where
        F: Fn(Self::Subpixel, Self::Subpixel) -> Self::Subpixel,

        requires
            forall|a: Self::Subpixel, b: Self::Subpixel| f.requires((a, b)),
        ensures
            r.spec_channels().len() == self.spec_channels().len(),
            forall|i: int|
                0 <= i < self.spec_channels().len() ==> f.ensures(
                    (self.spec_channels()[i], other.spec_channels()[i]),
                    #[trigger] r.spec_channels()[i],
                ),
    {
        let src = self.channels();
        let oth = other.channels();
        proof {
            Self::lemma_channel_count(*self);
            Self::lemma_channel_count(*other);
        }
        let n = src.len();
        let mut out: Vec<Self::Subpixel> = Vec::new();
        let mut i: usize = 0;
        while i < n
            invariant
                n == src@.len(),
                n == oth@.len(),
                src@ == self.spec_channels(),
                oth@ == other.spec_channels(),
                i <= n,
                out@.len() == i,
                forall|a: Self::Subpixel, b: Self::Subpixel| f.requires((a, b)),
                forall|k: int| 0 <= k < i ==> f.ensures((src@[k], oth@[k]), #[trigger] out@[k]),
            decreases n - i,
        {
            let v = f(src[i], oth[i]);
            out.push(v);
            i = i + 1;
        }
        Self::from_slice(out.as_slice())
    }

    /// Apply the function `f` to each channel of this pixel and the
    /// corresponding channel of `other`, in place.
    fn apply2<F>(&mut self, other: &Self, f: F) where
        F: Fn(Self::Subpixel, Self::Subpixel) -> Self::Subpixel,

        requires
            forall|a: Self::Subpixel, b: Self::Subpixel| f.requires((a, b)),
        ensures
            final(self).spec_channels().len() == old(self).spec_channels().len(),
            forall|i: int|
                0 <= i < old(self).spec_channels().len() ==> f.ensures(
                    (old(self).spec_channels()[i], other.spec_channels()[i]),
                    #[trigger] final(self).spec_channels()[i],
                ),
    {
        *self = self.map2(other, f);
    }
}

/// A view into an image: pixels addressed by `(x, y)` coordinates, with
/// `(0, 0)` at the top left.
pub trait ImageView<P: Color> {
    /// The width in pixels.
    spec fn view_width(&self) -> nat;

    /// The height in pixels.
    spec fn view_height(&self) -> nat;

    /// The view is in a consistent state.
    spec fn view_valid(&self) -> bool;

    /// The channels of pixel `(x, y)`.
    spec fn view_pixel(&self, x: int, y: int) -> Seq<P::Subpixel>;

    /// The width and height of the view.
    fn view_dimensions(&self) -> (r: (u32, u32))
        ensures
            r.0 == self.view_width(),
            r.1 == self.view_height(),
    ;

    /// The pixel at `(x, y)`, which must lie within the view.
    fn pixel(&self, x: u32, y: u32) -> (r: P)
        requires
            self.view_valid(),
            x < self.view_width(),
            y < self.view_height(),
        ensures
            r.spec_channels() == self.view_pixel(x as int, y as int),
    ;

    /// Sets the pixel at `(x, y)`, which must lie within the view; every
    /// other pixel keeps its value.
    fn set_pixel(&mut self, x: u32, y: u32, pixel: P)
        requires
            old(self).view_valid(),
            x < old(self).view_width(),
            y < old(self).view_height(),
        ensures
            final(self).view_valid(),
            final(self).view_width() == old(self).view_width(),
            final(self).view_height() == old(self).view_height(),
            final(self).view_pixel(x as int, y as int) == pixel.spec_channels(),
            forall|x2: int, y2: int|
                0 <= x2 < old(self).view_width() && 0 <= y2 < old(self).view_height() && (x2, y2)
                    != (x as int, y as int) ==> #[trigger] final(self).view_pixel(x2, y2)
                    == old(self).view_pixel(x2, y2),
    ;
}

/// Quotient, rounded towards zero; `a` where `b` is zero.
fn div_or_keep<T: Primitive>(a: T, b: T) -> (r: T)
    ensures
        b.value() != 0 ==> r.value() == a.value() / b.value(),
        b.value() == 0 ==> r == a,
{
    let zero = T::zero();
    if zero.less_than(b) {
        a.div(b)
    } else {
        proof {
            T::lemma_range(b);
        }
        a
    }
}

/// Channel-by-channel arithmetic between a color and an operand: another
/// color of the same type, or a scalar that is applied to every channel.
///
/// `operand.add(color)` is `color + operand`. Sums, differences and products
/// wrap around modulo `max_value() + 1`; quotients round towards zero.
pub trait ColorMathOps<C: Color>: Sized {
    /// The value that is combined with channel `i` of the color.
    spec fn operand(&self, i: int) -> C::Subpixel;

    fn add(self, rhs: C) -> (r: C)
        ensures
            r.spec_channels().len() == rhs.spec_channels().len(),
            forall|i: int|
                0 <= i < rhs.spec_channels().len() ==> (#[trigger] r.spec_channels()[i]).value()
                    == (rhs.spec_channels()[i].value() + self.operand(i).value()) % (
                C::Subpixel::max_value() + 1),
    ;

    fn sub(self, rhs: C) -> (r: C)
        ensures
            r.spec_channels().len() == rhs.spec_channels().len(),
            forall|i: int|
                0 <= i < rhs.spec_channels().len() ==> (#[trigger] r.spec_channels()[i]).value()
                    == (rhs.spec_channels()[i].value() - self.operand(i).value()) % (
                C::Subpixel::max_value() + 1),
    ;

    fn div(self, rhs: C) -> (r: C)
        requires
            forall|i: int|
                0 <= i < rhs.spec_channels().len() ==> (#[trigger] self.operand(i)).value() != 0,
        ensures
            r.spec_channels().len() == rhs.spec_channels().len(),
            forall|i: int|
                0 <= i < rhs.spec_channels().len() ==> (#[trigger] r.spec_channels()[i]).value()
                    == rhs.spec_channels()[i].value() / self.operand(i).value(),
    ;

    fn mul(self, rhs: C) -> (r: C)
        ensures
            r.spec_channels().len() == rhs.spec_channels().len(),
            forall|i: int|
                0 <= i < rhs.spec_channels().len() ==> (#[trigger] r.spec_channels()[i]).value()
                    == (rhs.spec_channels()[i].value() * self.operand(i).value()) % (
                C::Subpixel::max_value() + 1),
    ;
}

impl<C: Color> ColorMathOps<C> for C {
    open spec fn operand(&self, i: int) -> C::Subpixel {
        self.spec_channels()[i]
    }

    fn add(self, rhs: C) -> (r: C) {
        proof {
            C::lemma_channel_count(self);
            C::lemma_channel_count(rhs);
        }
        rhs.map2(&self, C::Subpixel::add_wrapping)
    }

    fn sub(self, rhs: C) -> (r: C) {
        proof {
            C::lemma_channel_count(self);
            C::lemma_channel_count(rhs);
        }
        rhs.map2(&self, C::Subpixel::sub_wrapping)
    }

    fn div(self, rhs: C) -> (r: C) {
        proof {
            C::lemma_channel_count(self);
            C::lemma_channel_count(rhs);
        }
        rhs.map2(&self, div_or_keep::<C::Subpixel>)
    }

    fn mul(self, rhs: C) -> (r: C) {
        proof {
            C::lemma_channel_count(self);
            C::lemma_channel_count(rhs);
        }
        rhs.map2(&self, C::Subpixel::mul_wrapping)
    }
}

/// The color whose every channel is `v`.
fn splat<C: Color>(v: C::Subpixel) -> (r: C)
    ensures
        r.spec_channels().len() == C::spec_channel_count(),
        forall|i: int| 0 <= i < C::spec_channel_count() ==> #[trigger] r.spec_channels()[i] == v,
{
    let n = C::channel_count();
    let mut values: Vec<C::Subpixel> = Vec::new();
    let mut i: usize = 0;
    while i < n
        invariant
            n == C::spec_channel_count(),
            i <= n,
            values@.len() == i,
            forall|k: int| 0 <= k < i ==> #[trigger] values@[k] == v,
        decreases n - i,
    {
        values.push(v);
        i = i + 1;
    }
    C::from_slice(values.as_slice())
}

impl<C: Color<Subpixel = u8>> ColorMathOps<C> for u8 {
    open spec fn operand(&self, i: int) -> u8 {
        *self
    }

    fn add(self, rhs: C) -> (r: C) {
        proof {
            C::lemma_channel_count(rhs);
        }
        splat::<C>(self).add(rhs)
    }

    fn sub(self, rhs: C) -> (r: C) {
        proof {
            C::lemma_channel_count(rhs);
        }
        splat::<C>(self).sub(rhs)
    }

    fn div(self, rhs: C) -> (r: C) {
        proof {
            C::lemma_channel_count(rhs);
            assert(<u8 as ColorMathOps<C>>::operand(&self, 0) == self);
        }
        splat::<C>(self).div(rhs)
    }

    fn mul(self, rhs: C) -> (r: C) {
        proof {
            C::lemma_channel_count(rhs);
        }
        splat::<C>(self).mul(rhs)
    }
}

impl<C: Color<Subpixel = u16>> ColorMathOps<C> for u16 {
    open spec fn operand(&self, i: int) -> u16 {
        *self
    }

    fn add(self, rhs: C) -> (r: C) {
        proof {
            C::lemma_channel_count(rhs);
        }
        splat::<C>(self).add(rhs)
    }

    fn sub(self, rhs: C) -> (r: C) {
        proof {
            C::lemma_channel_count(rhs);
        }
        splat::<C>(self).sub(rhs)
    }

    fn div(self, rhs: C) -> (r: C) {
        proof {
            C::lemma_channel_count(rhs);
            assert(<u16 as ColorMathOps<C>>::operand(&self, 0) == self);
        }
        splat::<C>(self).div(rhs)
    }

    fn mul(self, rhs: C) -> (r: C) {
        proof {
            C::lemma_channel_count(rhs);
        }
        splat::<C>(self).mul(rhs)
    }
}

impl<C: Color<Subpixel = u32>> ColorMathOps<C> for u32 {
    open spec fn operand(&self, i: int) -> u32 {
        *self
    }

    fn add(self, rhs: C) -> (r: C) {
        proof {
            C::lemma_channel_count(rhs);
        }
        splat::<C>(self).add(rhs)
    }

    fn sub(self, rhs: C) -> (r: C) {
        proof {
            C::lemma_channel_count(rhs);
        }
        splat::<C>(self).sub(rhs)
    }

    fn div(self, rhs: C) -> (r: C) {
        proof {
            C::lemma_channel_count(rhs);
            assert(<u32 as ColorMathOps<C>>::operand(&self, 0) == self);
        }
        splat::<C>(self).div(rhs)
    }

    fn mul(self, rhs: C) -> (r: C) {
        proof {
            C::lemma_channel_count(rhs);
        }
        splat::<C>(self).mul(rhs)
    }
}

impl<C: Color<Subpixel = u64>> ColorMathOps<C> for u64 {
    open spec fn operand(&self, i: int) -> u64 {
        *self
    }

    fn add(self, rhs: C) -> (r: C) {
        proof {
            C::lemma_channel_count(rhs);
        }
        splat::<C>(self).add(rhs)
    }

    fn sub(self, rhs: C) -> (r: C) {
        proof {
            C::lemma_channel_count(rhs);
        }
        splat::<C>(self).sub(rhs)
    }

    fn div(self, rhs: C) -> (r: C) {
        proof {
            C::lemma_channel_count(rhs);
            assert(<u64 as ColorMathOps<C>>::operand(&self, 0) == self);
        }
        splat::<C>(self).div(rhs)
    }

    fn mul(self, rhs: C) -> (r: C) {
        proof {
            C::lemma_channel_count(rhs);
        }
        splat::<C>(self).mul(rhs)
    }
}

impl<C: Color<Subpixel = usize>> ColorMathOps<C> for usize {
    open spec fn operand(&self, i: int) -> usize {
        *self
    }

    fn add(self, rhs: C) -> (r: C) {
        proof {
            C::lemma_channel_count(rhs);
        }
        splat::<C>(self).add(rhs)
    }

    fn sub(self, rhs: C) -> (r: C) {
        proof {
            C::lemma_channel_count(rhs);
        }
        splat::<C>(self).sub(rhs)
    }

    fn div(self, rhs: C) -> (r: C) {
        proof {
            C::lemma_channel_count(rhs);
            assert(<usize as ColorMathOps<C>>::operand(&self, 0) == self);
        }
        splat::<C>(self).div(rhs)
    }

    fn mul(self, rhs: C) -> (r: C) {
        proof {
            C::lemma_channel_count(rhs);
        }
        splat::<C>(self).mul(rhs)
    }
}

/// Reduction modulo `m` of a value that is at most one period out of range.
proof fn lemma_mod_one_period(v: int, m: int)
    requires
        0 < m,
        -m <= v < 2 * m,
    ensures
        v % m == (if v < 0 {
            v + m
        } else if v < m {
            v
        } else {
            v - m
        }),
{
    if v < 0 {
        vstd::arithmetic::div_mod::lemma_fundamental_div_mod_converse(v, m, -1, v + m);
    } else if v < m {
        vstd::arithmetic::div_mod::lemma_fundamental_div_mod_converse(v, m, 0, v);
    } else {
        vstd::arithmetic::div_mod::lemma_fundamental_div_mod_converse(v, m, 1, v - m);
    }
}

/// The value which is used to scale a channel: full intensity.
///
/// For the unsigned integer types it is the type's maximum.
pub trait ChannelMax: Primitive {
    /// Full intensity.
    spec fn spec_channel_max() -> Self;

    proof fn lemma_channel_max()
        ensures
            Self::spec_channel_max().value() == Self::max_value(),
    ;

    fn channel_max() -> (r: Self)
        ensures
            r == Self::spec_channel_max(),
            r.value() == Self::max_value(),
    ;
}

impl Primitive for u8 {
    open spec fn value(self) -> int {
        self as int
    }

    open spec fn spec_zero() -> Self {
        0
    }

    proof fn lemma_value_injective(a: Self, b: Self) {
    }

    open spec fn max_value() -> int {
        u8::MAX as int
    }

    proof fn lemma_range(a: Self) {
    }

    fn zero() -> (r: Self) {
        0
    }

    fn less_than(self, other: Self) -> (r: bool) {
        self < other
    }

    fn add_wrapping(self, other: Self) -> (r: Self) {
        proof {
            lemma_mod_one_period(self + other, 256);
        }
        self.wrapping_add(other)
    }

    fn sub_wrapping(self, other: Self) -> (r: Self) {
        proof {
            lemma_mod_one_period(self - other, 256);
        }
        self.wrapping_sub(other)
    }

    fn mul_wrapping(self, other: Self) -> (r: Self) {
        self.wrapping_mul(other)
    }

    fn div(self, other: Self) -> (r: Self) {
        self / other
    }
}

impl ChannelMax for u8 {
    open spec fn spec_channel_max() -> Self {
        u8::MAX
    }

    proof fn lemma_channel_max() {
    }

    fn channel_max() -> (r: Self) {
        u8::MAX
    }
}

impl Primitive for u16 {
    open spec fn value(self) -> int {
        self as int
    }

    open spec fn spec_zero() -> Self {
        0
    }

    proof fn lemma_value_injective(a: Self, b: Self) {
    }

    open spec fn max_value() -> int {
        u16::MAX as int
    }

    proof fn lemma_range(a: Self) {
    }

    fn zero() -> (r: Self) {
        0
    }

    fn less_than(self, other: Self) -> (r: bool) {
        self < other
    }

    fn add_wrapping(self, other: Self) -> (r: Self) {
        proof {
            lemma_mod_one_period(self + other, 65536);
        }
        self.wrapping_add(other)
    }

    fn sub_wrapping(self, other: Self) -> (r: Self) {
        proof {
            lemma_mod_one_period(self - other, 65536);
        }
        self.wrapping_sub(other)
    }

    fn mul_wrapping(self, other: Self) -> (r: Self) {
        self.wrapping_mul(other)
    }

    fn div(self, other: Self) -> (r: Self) {
        self / other
    }
}

impl ChannelMax for u16 {
    open spec fn spec_channel_max() -> Self {
        u16::MAX
    }

    proof fn lemma_channel_max() {
    }

    fn channel_max() -> (r: Self) {
        u16::MAX
    }
}

impl Primitive for u32 {
    open spec fn value(self) -> int {
        self as int
    }

    open spec fn spec_zero() -> Self {
        0
    }

    proof fn lemma_value_injective(a: Self, b: Self) {
    }

    open spec fn max_value() -> int {
        u32::MAX as int
    }

    proof fn lemma_range(a: Self) {
    }

    fn zero() -> (r: Self) {
        0
    }

    fn less_than(self, other: Self) -> (r: bool) {
        self < other
    }

    fn add_wrapping(self, other: Self) -> (r: Self) {
        proof {
            lemma_mod_one_period(self + other, 0x1_0000_0000);
        }
        self.wrapping_add(other)
    }

    fn sub_wrapping(self, other: Self) -> (r: Self) {
        proof {
            lemma_mod_one_period(self - other, 0x1_0000_0000);
        }
        self.wrapping_sub(other)
    }

    fn mul_wrapping(self, other: Self) -> (r: Self) {
        self.wrapping_mul(other)
    }

    fn div(self, other: Self) -> (r: Self) {
        self / other
    }
}

impl ChannelMax for u32 {
    open spec fn spec_channel_max() -> Self {
        u32::MAX
    }

    proof fn lemma_channel_max() {
    }

    fn channel_max() -> (r: Self) {
        u32::MAX
    }
}

impl Primitive for u64 {
    open spec fn value(self) -> int {
        self as int
    }

    open spec fn spec_zero() -> Self {
        0
    }

    proof fn lemma_value_injective(a: Self, b: Self) {
    }

    open spec fn max_value() -> int {
        u64::MAX as int
    }

    proof fn lemma_range(a: Self) {
    }

    fn zero() -> (r: Self) {
        0
    }

    fn less_than(self, other: Self) -> (r: bool) {
        self < other
    }

    fn add_wrapping(self, other: Self) -> (r: Self) {
        proof {
            lemma_mod_one_period(self + other, 0x1_0000_0000_0000_0000);
        }
        self.wrapping_add(other)
    }

    fn sub_wrapping(self, other: Self) -> (r: Self) {
        proof {
            lemma_mod_one_period(self - other, 0x1_0000_0000_0000_0000);
        }
        self.wrapping_sub(other)
    }

    fn mul_wrapping(self, other: Self) -> (r: Self) {
        self.wrapping_mul(other)
    }

    fn div(self, other: Self) -> (r: Self) {
        self / other
    }
}

impl ChannelMax for u64 {
    open spec fn spec_channel_max() -> Self {
        u64::MAX
    }

    proof fn lemma_channel_max() {
    }

    fn channel_max() -> (r: Self) {
        u64::MAX
    }
}

impl Primitive for usize {
    open spec fn value(self) -> int {
        self as int
    }

    open spec fn spec_zero() -> Self {
        0
    }

    proof fn lemma_value_injective(a: Self, b: Self) {
    }

    open spec fn max_value() -> int {
        usize::MAX as int
    }

    proof fn lemma_range(a: Self) {
    }

    fn zero() -> (r: Self) {
        0
    }

    fn less_than(self, other: Self) -> (r: bool) {
        self < other
    }

    fn add_wrapping(self, other: Self) -> (r: Self) {
        proof {
            lemma_mod_one_period(self + other, (usize::MAX as int + 1));
        }
        self.wrapping_add(other)
    }

    fn sub_wrapping(self, other: Self) -> (r: Self) {
        proof {
            lemma_mod_one_period(self - other, (usize::MAX as int + 1));
        }
        self.wrapping_sub(other)
    }

    fn mul_wrapping(self, other: Self) -> (r: Self) {
        self.wrapping_mul(other)
    }

    fn div(self, other: Self) -> (r: Self) {
        self / other
    }
}

impl ChannelMax for usize {
    open spec fn spec_channel_max() -> Self {
        usize::MAX
    }

    proof fn lemma_channel_max() {
    }

    fn channel_max() -> (r: Self) {
        usize::MAX
    }
}

} // verus!
