//! The concrete color types.
use vstd::prelude::*;

pub use crate::alpha::Alpha;
use crate::traits::{Color, Primitive};

verus! {

/// A color without an alpha channel, of at most three channels, to which an
/// alpha channel can be appended.
pub trait BaseColor: Color {
    proof fn lemma_base_channel_count()
        ensures
            1 <= Self::spec_channel_count() <= 3,
    ;

    /// A base color is determined by its channels.
    proof fn lemma_from_own_channels(c: Self)
        ensures
            Self::spec_from_channels(c.spec_channels()) == c,
    ;
}

/// sRGB.
#[derive(PartialEq, Eq, Clone, Copy, Debug, Hash)]
pub struct Rgb<T: Primitive>(pub [T; 3]);

impl<T: Primitive> Rgb<T> {
    pub fn new(array: [T; 3]) -> (r: Self)
        ensures
            r.0 == array,
    {
        Rgb(array)
    }
}

impl<T: Primitive> Color for Rgb<T> {
    type Subpixel = T;

    type Storage = [T; 3];

    open spec fn spec_channel_count() -> nat {
        3
    }

    open spec fn spec_channels(&self) -> Seq<T> {
        self.0@
    }

    open spec fn storage_channels(s: [T; 3]) -> Seq<T> {
        s@
    }

    open spec fn model_name() -> Seq<char> {
        seq!['R', 'G', 'B']
    }

    open spec fn spec_from_channels(s: Seq<T>) -> Self {
        Rgb([s[0], s[1], s[2]])
    }

    proof fn lemma_channel_count(c: Self) {
        assert(<Rgb<T> as Color>::spec_channel_count() == 3);
        assert(c.0@.len() == 3);
    }

    proof fn lemma_from_channels(s: Seq<T>) {
        let c = <Rgb<T> as Color>::spec_from_channels(s);
        assert(c == Rgb([s[0], s[1], s[2]]));
        assert(c.0@ =~= s);
    }

    fn channel_count() -> (r: usize) {
        3
    }

    fn channels(&self) -> (r: &[T]) {
        self.0.as_slice()
    }

    fn channels_mut(&mut self) -> (r: &mut [T; 3]) {
        &mut self.0
    }

    fn from_channels(c: [T; 3]) -> (r: Self) {
        Rgb(c)
    }

    fn color_model() -> (r: &'static str) {
        proof {
            reveal_strlit("RGB");
        }
        "RGB"
    }

    fn from_slice(slice: &[T]) -> (r: Self) {
        let r = Rgb([slice[0], slice[1], slice[2]]);
        assert(r.0@ =~= slice@);
        assert(r == <Rgb<T> as Color>::spec_from_channels(slice@));
        r
    }
}

impl<T: Primitive> BaseColor for Rgb<T> {
    proof fn lemma_base_channel_count() {
        assert(<Rgb<T> as Color>::spec_channel_count() == 3);
    }

    proof fn lemma_from_own_channels(c: Self) {
        let d = <Rgb<T> as Color>::spec_from_channels(c.spec_channels());
        assert(d.0 =~= c.0);
    }
}

/// CIE XYZ.
#[derive(PartialEq, Eq, Clone, Copy, Debug, Hash)]
pub struct Xyz<T: Primitive>(pub [T; 3]);

impl<T: Primitive> Xyz<T> {
    pub fn new(array: [T; 3]) -> (r: Self)
        ensures
            r.0 == array,
    {
        Xyz(array)
    }
}

impl<T: Primitive> Color for Xyz<T> {
    type Subpixel = T;

    type Storage = [T; 3];

    open spec fn spec_channel_count() -> nat {
        3
    }

    open spec fn spec_channels(&self) -> Seq<T> {
        self.0@
    }

    open spec fn storage_channels(s: [T; 3]) -> Seq<T> {
        s@
    }

    open spec fn model_name() -> Seq<char> {
        seq!['X', 'Y', 'Z']
    }

    open spec fn spec_from_channels(s: Seq<T>) -> Self {
        Xyz([s[0], s[1], s[2]])
    }

    proof fn lemma_channel_count(c: Self) {
        assert(<Xyz<T> as Color>::spec_channel_count() == 3);
        assert(c.0@.len() == 3);
    }

    proof fn lemma_from_channels(s: Seq<T>) {
        let c = <Xyz<T> as Color>::spec_from_channels(s);
        assert(c == Xyz([s[0], s[1], s[2]]));
        assert(c.0@ =~= s);
    }

    fn channel_count() -> (r: usize) {
        3
    }

    fn channels(&self) -> (r: &[T]) {
        self.0.as_slice()
    }

    fn channels_mut(&mut self) -> (r: &mut [T; 3]) {
        &mut self.0
    }

    fn from_channels(c: [T; 3]) -> (r: Self) {
        Xyz(c)
    }

    fn color_model() -> (r: &'static str) {
        proof {
            reveal_strlit("XYZ");
        }
        "XYZ"
    }

    fn from_slice(slice: &[T]) -> (r: Self) {
        let r = Xyz([slice[0], slice[1], slice[2]]);
        assert(r.0@ =~= slice@);
        assert(r == <Xyz<T> as Color>::spec_from_channels(slice@));
        r
    }
}

impl<T: Primitive> BaseColor for Xyz<T> {
    proof fn lemma_base_channel_count() {
        assert(<Xyz<T> as Color>::spec_channel_count() == 3);
    }

    proof fn lemma_from_own_channels(c: Self) {
        let d = <Xyz<T> as Color>::spec_from_channels(c.spec_channels());
        assert(d.0 =~= c.0);
    }
}

/// CIE L*a*b*.
#[derive(PartialEq, Eq, Clone, Copy, Debug, Hash)]
pub struct Lab<T: Primitive>(pub [T; 3]);

impl<T: Primitive> Lab<T> {
    pub fn new(array: [T; 3]) -> (r: Self)
        ensures
            r.0 == array,
    {
        Lab(array)
    }
}

impl<T: Primitive> Color for Lab<T> {
    type Subpixel = T;

    type Storage = [T; 3];

    open spec fn spec_channel_count() -> nat {
        3
    }

    open spec fn spec_channels(&self) -> Seq<T> {
        self.0@
    }

    open spec fn storage_channels(s: [T; 3]) -> Seq<T> {
        s@
    }

    open spec fn model_name() -> Seq<char> {
        seq!['C', 'I', 'E', ' ', 'L', 'a', 'b']
    }

    open spec fn spec_from_channels(s: Seq<T>) -> Self {
        Lab([s[0], s[1], s[2]])
    }

    proof fn lemma_channel_count(c: Self) {
        assert(<Lab<T> as Color>::spec_channel_count() == 3);
        assert(c.0@.len() == 3);
    }

    proof fn lemma_from_channels(s: Seq<T>) {
        let c = <Lab<T> as Color>::spec_from_channels(s);
        assert(c == Lab([s[0], s[1], s[2]]));
        assert(c.0@ =~= s);
    }

    fn channel_count() -> (r: usize) {
        3
    }

    fn channels(&self) -> (r: &[T]) {
        self.0.as_slice()
    }

    fn channels_mut(&mut self) -> (r: &mut [T; 3]) {
        &mut self.0
    }

    fn from_channels(c: [T; 3]) -> (r: Self) {
        Lab(c)
    }

    fn color_model() -> (r: &'static str) {
        proof {
            reveal_strlit("CIE Lab");
        }
        "CIE Lab"
    }

    fn from_slice(slice: &[T]) -> (r: Self) {
        let r = Lab([slice[0], slice[1], slice[2]]);
        assert(r.0@ =~= slice@);
        assert(r == <Lab<T> as Color>::spec_from_channels(slice@));
        r
    }
}

impl<T: Primitive> BaseColor for Lab<T> {
    proof fn lemma_base_channel_count() {
        assert(<Lab<T> as Color>::spec_channel_count() == 3);
    }

    proof fn lemma_from_own_channels(c: Self) {
        let d = <Lab<T> as Color>::spec_from_channels(c.spec_channels());
        assert(d.0 =~= c.0);
    }
}

/// Grayscale.
#[derive(PartialEq, Eq, Clone, Copy, Debug, Hash)]
pub struct Gray<T: Primitive>(pub [T; 1]);

impl<T: Primitive> Gray<T> {
    pub fn new(array: [T; 1]) -> (r: Self)
        ensures
            r.0 == array,
    {
        Gray(array)
    }
}

impl<T: Primitive> Color for Gray<T> {
    type Subpixel = T;

    type Storage = [T; 1];

    open spec fn spec_channel_count() -> nat {
        1
    }

    open spec fn spec_channels(&self) -> Seq<T> {
        self.0@
    }

    open spec fn storage_channels(s: [T; 1]) -> Seq<T> {
        s@
    }

    open spec fn model_name() -> Seq<char> {
        seq!['Y']
    }

    open spec fn spec_from_channels(s: Seq<T>) -> Self {
        Gray([s[0]])
    }

    proof fn lemma_channel_count(c: Self) {
        assert(<Gray<T> as Color>::spec_channel_count() == 1);
        assert(c.0@.len() == 1);
    }

    proof fn lemma_from_channels(s: Seq<T>) {
        let c = <Gray<T> as Color>::spec_from_channels(s);
        assert(c == Gray([s[0]]));
        assert(c.0@ =~= s);
    }

    fn channel_count() -> (r: usize) {
        1
    }

    fn channels(&self) -> (r: &[T]) {
        self.0.as_slice()
    }

    fn channels_mut(&mut self) -> (r: &mut [T; 1]) {
        &mut self.0
    }

    fn from_channels(c: [T; 1]) -> (r: Self) {
        Gray(c)
    }

    fn color_model() -> (r: &'static str) {
        proof {
            reveal_strlit("Y");
        }
        "Y"
    }

    fn from_slice(slice: &[T]) -> (r: Self) {
        let r = Gray([slice[0]]);
        assert(r.0@ =~= slice@);
        assert(r == <Gray<T> as Color>::spec_from_channels(slice@));
        r
    }
}

impl<T: Primitive> BaseColor for Gray<T> {
    proof fn lemma_base_channel_count() {
        assert(<Gray<T> as Color>::spec_channel_count() == 1);
    }

    proof fn lemma_from_own_channels(c: Self) {
        let d = <Gray<T> as Color>::spec_from_channels(c.spec_channels());
        assert(d.0 =~= c.0);
    }
}

/// Indexed colors.
///
/// No specific color model is assumed.
#[derive(PartialEq, Eq, Clone, Copy, Debug, Hash)]
pub struct Indexed<T: Primitive>(pub [T; 1]);

impl<T: Primitive> Indexed<T> {
    pub fn new(array: [T; 1]) -> (r: Self)
        ensures
            r.0 == array,
    {
        Indexed(array)
    }
}

impl<T: Primitive> Color for Indexed<T> {
    type Subpixel = T;

    type Storage = [T; 1];

    open spec fn spec_channel_count() -> nat {
        1
    }

    open spec fn spec_channels(&self) -> Seq<T> {
        self.0@
    }

    open spec fn storage_channels(s: [T; 1]) -> Seq<T> {
        s@
    }

    open spec fn model_name() -> Seq<char> {
        seq!['I', 'd', 'x']
    }

    open spec fn spec_from_channels(s: Seq<T>) -> Self {
        Indexed([s[0]])
    }

    proof fn lemma_channel_count(c: Self) {
        assert(<Indexed<T> as Color>::spec_channel_count() == 1);
        assert(c.0@.len() == 1);
    }

    proof fn lemma_from_channels(s: Seq<T>) {
        let c = <Indexed<T> as Color>::spec_from_channels(s);
        assert(c == Indexed([s[0]]));
        assert(c.0@ =~= s);
    }

    fn channel_count() -> (r: usize) {
        1
    }

    fn channels(&self) -> (r: &[T]) {
        self.0.as_slice()
    }

    fn channels_mut(&mut self) -> (r: &mut [T; 1]) {
        &mut self.0
    }

    fn from_channels(c: [T; 1]) -> (r: Self) {
        Indexed(c)
    }

    fn color_model() -> (r: &'static str) {
        proof {
            reveal_strlit("Idx");
        }
        "Idx"
    }

    fn from_slice(slice: &[T]) -> (r: Self) {
        let r = Indexed([slice[0]]);
        assert(r.0@ =~= slice@);
        assert(r == <Indexed<T> as Color>::spec_from_channels(slice@));
        r
    }
}

impl<T: Primitive> BaseColor for Indexed<T> {
    proof fn lemma_base_channel_count() {
        assert(<Indexed<T> as Color>::spec_channel_count() == 1);
    }

    proof fn lemma_from_own_channels(c: Self) {
        let d = <Indexed<T> as Color>::spec_from_channels(c.spec_channels());
        assert(d.0 =~= c.0);
    }
}

impl<T: Primitive> From<Gray<T>> for Rgb<T> {
    /// Replicates the luminance into all three channels.
    fn from(other: Gray<T>) -> (r: Self) {
        let luma = other.0[0];
        Rgb([luma, luma, luma])
    }
}

impl<T: Primitive> vstd::std_specs::convert::FromSpecImpl<Gray<T>> for Rgb<T> {
    open spec fn obeys_from_spec() -> bool {
        true
    }

    open spec fn from_spec(v: Gray<T>) -> Self {
        Rgb([v.0[0], v.0[0], v.0[0]])
    }
}

/// sRGB with alpha.
pub type Rgba<T> = Alpha<Rgb<T>>;

/// CIE XYZ with alpha.
pub type Xyza<T> = Alpha<Xyz<T>>;

/// CIE L*a*b* with alpha.
pub type LabA<T> = Alpha<Lab<T>>;

/// Grayscale with alpha.
pub type GrayA<T> = Alpha<Gray<T>>;

} // verus!
