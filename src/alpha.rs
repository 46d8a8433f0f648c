//! Colors with an appended alpha channel.
use vstd::prelude::*;

use crate::color::{BaseColor, Gray, Indexed, Lab, Rgb, Xyz};
use crate::traits::{ChannelMax, Color, Primitive};

verus! {

/// The `i`-th channel of `s`, or zero where `s` is too short.
pub open spec fn channel_or_zero<T: Primitive>(s: Seq<T>, i: int) -> T {
    if i < s.len() {
        s[i]
    } else {
        T::spec_zero()
    }
}

/// A base color with one appended channel that holds its opacity.
///
/// The channels are those of the base color followed by the alpha channel.
/// They are kept in a four-element array; the entries past
/// `channel_count()` are unused.
#[derive(Clone, Copy, Debug)]
pub struct Alpha<C: BaseColor> {
    data: [C::Subpixel; 4],
}

impl<C: BaseColor> Alpha<C> {
    /// Constructs a color from its channels. Entries past `channel_count()`
    /// are ignored.
    pub fn new(array: [C::Subpixel; 4]) -> (r: Self)
        ensures
            r.spec_channels() == array@.take(C::spec_channel_count() + 1 as int),
    {
        Alpha { data: array }
    }
}

impl<C: BaseColor> Color for Alpha<C> {
    type Subpixel = C::Subpixel;

    type Storage = [C::Subpixel; 4];

    open spec fn spec_channel_count() -> nat {
        C::spec_channel_count() + 1
    }

    closed spec fn spec_channels(&self) -> Seq<C::Subpixel> {
        self.data@.take(C::spec_channel_count() + 1 as int)
    }

    open spec fn storage_channels(s: [C::Subpixel; 4]) -> Seq<C::Subpixel> {
        s@.take(C::spec_channel_count() + 1 as int)
    }

    open spec fn model_name() -> Seq<char> {
        C::model_name()
    }

    closed spec fn spec_from_channels(s: Seq<C::Subpixel>) -> Self {
        Alpha {
            data: [
                channel_or_zero(s, 0),
                channel_or_zero(s, 1),
                channel_or_zero(s, 2),
                channel_or_zero(s, 3),
            ],
        }
    }

    proof fn lemma_channel_count(c: Self) {
        C::lemma_base_channel_count();
        assert(c.data@.len() == 4);
        assert(<Alpha<C> as Color>::spec_channel_count() == C::spec_channel_count() + 1);
    }

    proof fn lemma_from_channels(s: Seq<C::Subpixel>) {
        C::lemma_base_channel_count();
        let c = <Alpha<C> as Color>::spec_from_channels(s);
        assert(c.spec_channels() =~= s);
    }

    fn channel_count() -> (r: usize) {
        proof {
            C::lemma_base_channel_count();
            assert(<Alpha<C> as Color>::spec_channel_count() == C::spec_channel_count() + 1);
        }
        C::channel_count() + 1
    }

    fn channels(&self) -> (r: &[C::Subpixel]) {
        let n = Self::channel_count();
        proof {
            C::lemma_base_channel_count();
        }
        assert(self.data@.len() == 4);
        let (head, _) = self.data.as_slice().split_at(n);
        assert(head@ =~= self.spec_channels());
        head
    }

    fn channels_mut(&mut self) -> (r: &mut [C::Subpixel; 4]) {
        &mut self.data
    }

    fn from_channels(c: [C::Subpixel; 4]) -> (r: Self) {
        Alpha { data: c }
    }

    fn color_model() -> (r: &'static str) {
        C::color_model()
    }

    fn from_slice(slice: &[C::Subpixel]) -> (r: Self) {
        proof {
            C::lemma_base_channel_count();
        }
        let n = slice.len();
        let z = C::Subpixel::zero();
        let mut data = [z, z, z, z];
        let mut i: usize = 0;
        while i < n
            invariant
                n == slice@.len(),
                2 <= n <= 4,
                i <= n,
                z == C::Subpixel::spec_zero(),
                forall|k: int| 0 <= k < i ==> data@[k] == slice@[k],
                forall|k: int| i <= k < 4 ==> data@[k] == z,
            decreases n - i,
        {
            data[i] = slice[i];
            i = i + 1;
        }
        let r = Alpha { data };
        assert(r.data =~= <Alpha<C> as Color>::spec_from_channels(slice@).data);
        assert(r.spec_channels() =~= slice@);
        r
    }
}

/// The alpha-composed form of `c`: its channels followed by full intensity.
pub open spec fn with_full_alpha<C: BaseColor>(c: C) -> Seq<C::Subpixel> where
    C::Subpixel: ChannelMax,
 {
    c.spec_channels().push(C::Subpixel::spec_channel_max())
}

impl<C: BaseColor> From<C> for Alpha<C> where C::Subpixel: ChannelMax {
    /// Appends a fully opaque alpha channel.
    fn from(other: C) -> (r: Self) {
        let src = other.channels();
        proof {
            C::lemma_channel_count(other);
            C::lemma_base_channel_count();
        }
        let n = src.len();
        let z = C::Subpixel::zero();
        let mut data = [z, z, z, z];
        let mut i: usize = 0;
        while i < n
            invariant
                n == src@.len(),
                src@ == other.spec_channels(),
                1 <= n <= 3,
                i <= n,
                z == C::Subpixel::spec_zero(),
                forall|k: int| 0 <= k < i ==> data@[k] == src@[k],
                forall|k: int| i <= k < 4 ==> data@[k] == z,
            decreases n - i,
        {
            data[i] = src[i];
            i = i + 1;
        }
        data[n] = C::Subpixel::channel_max();
        let r = Alpha { data };
        assert(r.data =~= <Alpha<C> as Color>::spec_from_channels(with_full_alpha(other)).data);
        r
    }
}

impl<C: BaseColor> vstd::std_specs::convert::FromSpecImpl<C> for Alpha<C> where C::Subpixel: ChannelMax {
    open spec fn obeys_from_spec() -> bool {
        true
    }

    open spec fn from_spec(v: C) -> Self {
        <Alpha<C> as Color>::spec_from_channels(with_full_alpha(v))
    }
}

impl<T: Primitive> From<Alpha<Rgb<T>>> for Rgb<T> {
    /// Drops the alpha channel.
    fn from(other: Alpha<Rgb<T>>) -> (r: Self) {
        let ch = other.channels();
        proof {
            <Alpha<Rgb<T>> as Color>::lemma_channel_count(other);
            assert(<Alpha<Rgb<T>> as Color>::spec_channel_count() == 4);
        }
        let (base, _) = ch.split_at(3);
        assert(base@ =~= other.spec_channels().drop_last());
        Self::from_slice(base)
    }
}

impl<T: Primitive> vstd::std_specs::convert::FromSpecImpl<Alpha<Rgb<T>>> for Rgb<T> {
    open spec fn obeys_from_spec() -> bool {
        true
    }

    open spec fn from_spec(v: Alpha<Rgb<T>>) -> Self {
        <Rgb<T> as Color>::spec_from_channels(v.spec_channels().drop_last())
    }
}

impl<T: Primitive> From<Alpha<Xyz<T>>> for Xyz<T> {
    /// Drops the alpha channel.
    fn from(other: Alpha<Xyz<T>>) -> (r: Self) {
        let ch = other.channels();
        proof {
            <Alpha<Xyz<T>> as Color>::lemma_channel_count(other);
            assert(<Alpha<Xyz<T>> as Color>::spec_channel_count() == 4);
        }
        let (base, _) = ch.split_at(3);
        assert(base@ =~= other.spec_channels().drop_last());
        Self::from_slice(base)
    }
}

impl<T: Primitive> vstd::std_specs::convert::FromSpecImpl<Alpha<Xyz<T>>> for Xyz<T> {
    open spec fn obeys_from_spec() -> bool {
        true
    }

    open spec fn from_spec(v: Alpha<Xyz<T>>) -> Self {
        <Xyz<T> as Color>::spec_from_channels(v.spec_channels().drop_last())
    }
}

impl<T: Primitive> From<Alpha<Lab<T>>> for Lab<T> {
    /// Drops the alpha channel.
    fn from(other: Alpha<Lab<T>>) -> (r: Self) {
        let ch = other.channels();
        proof {
            <Alpha<Lab<T>> as Color>::lemma_channel_count(other);
            assert(<Alpha<Lab<T>> as Color>::spec_channel_count() == 4);
        }
        let (base, _) = ch.split_at(3);
        assert(base@ =~= other.spec_channels().drop_last());
        Self::from_slice(base)
    }
}

impl<T: Primitive> vstd::std_specs::convert::FromSpecImpl<Alpha<Lab<T>>> for Lab<T> {
    open spec fn obeys_from_spec() -> bool {
        true
    }

    open spec fn from_spec(v: Alpha<Lab<T>>) -> Self {
        <Lab<T> as Color>::spec_from_channels(v.spec_channels().drop_last())
    }
}

impl<T: Primitive> From<Alpha<Gray<T>>> for Gray<T> {
    /// Drops the alpha channel.
    fn from(other: Alpha<Gray<T>>) -> (r: Self) {
        let ch = other.channels();
        proof {
            <Alpha<Gray<T>> as Color>::lemma_channel_count(other);
            assert(<Alpha<Gray<T>> as Color>::spec_channel_count() == 2);
        }
        let (base, _) = ch.split_at(1);
        assert(base@ =~= other.spec_channels().drop_last());
        Self::from_slice(base)
    }
}

impl<T: Primitive> vstd::std_specs::convert::FromSpecImpl<Alpha<Gray<T>>> for Gray<T> {
    open spec fn obeys_from_spec() -> bool {
        true
    }

    open spec fn from_spec(v: Alpha<Gray<T>>) -> Self {
        <Gray<T> as Color>::spec_from_channels(v.spec_channels().drop_last())
    }
}

impl<T: Primitive> From<Alpha<Indexed<T>>> for Indexed<T> {
    /// Drops the alpha channel.
    fn from(other: Alpha<Indexed<T>>) -> (r: Self) {
        let ch = other.channels();
        proof {
            <Alpha<Indexed<T>> as Color>::lemma_channel_count(other);
            assert(<Alpha<Indexed<T>> as Color>::spec_channel_count() == 2);
        }
        let (base, _) = ch.split_at(1);
        assert(base@ =~= other.spec_channels().drop_last());
        Self::from_slice(base)
    }
}

impl<T: Primitive> vstd::std_specs::convert::FromSpecImpl<Alpha<Indexed<T>>> for Indexed<T> {
    open spec fn obeys_from_spec() -> bool {
        true
    }

    open spec fn from_spec(v: Alpha<Indexed<T>>) -> Self {
        <Indexed<T> as Color>::spec_from_channels(v.spec_channels().drop_last())
    }
}

/// Appending an alpha channel to a base color sets it to full intensity and
/// keeps the other channels; dropping it again gives back the base color.
pub proof fn lemma_alpha_round_trip<C: BaseColor>(c: C) where C::Subpixel: ChannelMax
    ensures
        <Alpha<C> as vstd::std_specs::convert::FromSpec<C>>::from_spec(c).spec_channels() == c.spec_channels().push(
            C::Subpixel::spec_channel_max(),
        ),
        <Alpha<C> as vstd::std_specs::convert::FromSpec<C>>::from_spec(c).spec_channels().last().value() == C::Subpixel::max_value(),
        C::spec_from_channels(<Alpha<C> as vstd::std_specs::convert::FromSpec<C>>::from_spec(c).spec_channels().drop_last()) == c,
{
    C::lemma_channel_count(c);
    C::lemma_base_channel_count();
    C::Subpixel::lemma_channel_max();
    let s = with_full_alpha(c);
    <Alpha<C> as Color>::lemma_from_channels(s);
    assert(s.drop_last() =~= c.spec_channels());
    C::lemma_from_own_channels(c);
}

} // verus!
