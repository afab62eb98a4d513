//! Rational time bases, timestamp rescaling and the frame array.

use vstd::prelude::*;

verus! {

/// A ratio of two 32-bit integers, used for time bases and frame rates.
#[derive(Clone, Copy, Debug, PartialEq, Eq, Structural)]
pub struct Rational {
    pub numerator: i32,
    pub denominator: i32,
}

impl Rational {
    pub fn new(numerator: i32, denominator: i32) -> (r: Self)
        ensures
            r.numerator == numerator,
            r.denominator == denominator,
    {
        Rational { numerator, denominator }
    }

    pub fn numerator(&self) -> (n: i32)
        ensures
            n == self.numerator,
    {
        self.numerator
    }

    pub fn denominator(&self) -> (d: i32)
        ensures
            d == self.denominator,
    {
        self.denominator
    }

    /// The reciprocal: numerator and denominator change places.
    pub fn invert(&self) -> (r: Self)
        ensures
            r.numerator == self.denominator,
            r.denominator == self.numerator,
    {
        Rational { numerator: self.denominator, denominator: self.numerator }
    }

    /// A time base whose numerator is zero measures nothing.
    pub open spec fn is_degenerate(&self) -> bool {
        self.numerator == 0
    }

    pub fn degenerate(&self) -> (b: bool)
        ensures
            b == self.is_degenerate(),
    {
        self.numerator == 0
    }

    /// This time base, or, where it is zero, the time between two frames at
    /// the given frame rate.
    pub fn or_frame_interval(&self, frame_rate: Rational) -> (r: Self)
        ensures
            r == usable_time_base(*self, frame_rate),
    {
        if self.numerator == 0 {
            frame_rate.invert()
        } else {
            *self
        }
    }
}

/// The time base to count in: `time_base`, or, where that is zero, the
/// reciprocal of the frame rate.
pub open spec fn usable_time_base(time_base: Rational, frame_rate: Rational) -> Rational {
    if time_base.is_degenerate() {
        Rational { numerator: frame_rate.denominator, denominator: frame_rate.numerator }
    } else {
        time_base
    }
}

/// The magnitude of an integer.
pub open spec fn magnitude(x: int) -> int {
    if x < 0 {
        -x
    } else {
        x
    }
}

/// Quotient of `n` by `d`, rounded toward zero. Meaningful for `d != 0`.
pub open spec fn quotient_toward_zero(n: int, d: int) -> int {
    if (n < 0) == (d < 0) {
        magnitude(n) / magnitude(d)
    } else {
        -(magnitude(n) / magnitude(d))
    }
}

/// `value`, counted in units of `src`, expressed in units of `dst`:
/// `value * src / dst`, rounded toward zero.
pub open spec fn rescaled(value: int, src: Rational, dst: Rational) -> int {
    quotient_toward_zero(
        value * src.numerator * dst.denominator,
        src.denominator * dst.numerator,
    )
}

/// Whether `rescaled` is defined for these time bases and fits in 64 bits.
pub open spec fn rescalable(value: int, src: Rational, dst: Rational) -> bool {
    &&& src.denominator * dst.numerator != 0
    &&& i64::MIN <= rescaled(value, src, dst) <= i64::MAX
}

proof fn lemma_product_bounds(a: int, b: int, ma: int, mb: int)
    requires
        -ma <= a <= ma,
        -mb <= b <= mb,
        0 <= ma,
        0 <= mb,
    ensures
        -(ma * mb) <= a * b <= ma * mb,
{
    assert(-(ma * mb) <= a * b <= ma * mb) by (nonlinear_arith)
        requires
            -ma <= a <= ma,
            -mb <= b <= mb,
            0 <= ma,
            0 <= mb,
    ;
}

fn magnitude_i128(x: i128) -> (m: u128)
    requires
        x > i128::MIN,
    ensures
        m == magnitude(x as int),
{
    if x < 0 {
        (-x) as u128
    } else {
        x as u128
    }
}

/// Converts a timestamp from the time base `src` to the time base `dst`,
/// rounding toward zero. `None` when the divisor is zero or the result does
/// not fit in 64 bits.
pub fn rescale_q(value: i64, src: Rational, dst: Rational) -> (r: Option<i64>)
    ensures
        r is Some <==> rescalable(value as int, src, dst),
        r matches Some(v) ==> v == rescaled(value as int, src, dst),
{
    proof {
        lemma_product_bounds(
            src.numerator as int,
            dst.denominator as int,
            0x8000_0000,
            0x8000_0000,
        );
        lemma_product_bounds(
            src.denominator as int,
            dst.numerator as int,
            0x8000_0000,
            0x8000_0000,
        );
    }
    let factor: i64 = src.numerator as i64 * dst.denominator as i64;
    let divisor: i64 = src.denominator as i64 * dst.numerator as i64;
    if divisor == 0 {
        return None;
    }
    proof {
        lemma_product_bounds(
            value as int,
            factor as int,
            0x8000_0000_0000_0000,
            0x4000_0000_0000_0000,
        );
        assert(value * src.numerator * dst.denominator == value * (src.numerator
            * dst.denominator)) by (nonlinear_arith);
    }
    let product: i128 = value as i128 * factor as i128;
    let n: u128 = magnitude_i128(product);
    let d: u128 = magnitude_i128(divisor as i128);
    let q: u128 = n / d;
    let negative: bool = (product < 0) != (divisor < 0);
    if negative {
        if q <= 0x8000_0000_0000_0000u128 {
            Some((-(q as i128)) as i64)
        } else {
            None
        }
    } else {
        if q <= 0x7fff_ffff_ffff_ffffu128 {
            Some(q as i64)
        } else {
            None
        }
    }
}

/// Number of bytes of an RGB24 image of the given size.
pub open spec fn rgb24_len(height: int, width: int) -> int {
    height * width * 3
}

/// The byte count of an RGB24 image of the given size, if it fits in `usize`.
pub fn rgb24_size(height: usize, width: usize) -> (r: Option<usize>)
    ensures
        r is Some <==> rgb24_len(height as int, width as int) <= usize::MAX,
        r matches Some(n) ==> n == rgb24_len(height as int, width as int),
{
    proof {
        lemma_product_bounds(
            height as int,
            width as int,
            0xffff_ffff_ffff_ffff,
            0xffff_ffff_ffff_ffff,
        );
    }
    let pixels: u128 = height as u128 * width as u128;
    if pixels <= (usize::MAX / 3) as u128 {
        Some((pixels * 3) as usize)
    } else {
        None
    }
}

/// Whether an RGB24 image of the given size can be held in memory at all.
pub fn rgb24_fits(height: usize, width: usize) -> (b: bool)
    ensures
        b == (rgb24_len(height as int, width as int) <= usize::MAX),
{
    rgb24_size(height, width).is_some()
}

/// A byte array of shape `(height, width, 3)`: one RGB24 image, row-major,
/// without padding.
pub struct FrameArray {
    height: usize,
    width: usize,
    data: Vec<u8>,
}

impl View for FrameArray {
    type V = Seq<u8>;

    closed spec fn view(&self) -> Seq<u8> {
        self.data@
    }
}

impl FrameArray {
    pub closed spec fn spec_height(&self) -> int {
        self.height as int
    }

    pub closed spec fn spec_width(&self) -> int {
        self.width as int
    }

    /// The bytes fill the shape exactly.
    pub closed spec fn wf(&self) -> bool {
        self.data@.len() == rgb24_len(self.height as int, self.width as int)
    }

    pub proof fn lemma_wf_len(&self)
        requires
            self.wf(),
        ensures
            self@.len() == rgb24_len(self.spec_height(), self.spec_width()),
    {
    }

    pub proof fn lemma_len_wf(&self)
        requires
            self@.len() == rgb24_len(self.spec_height(), self.spec_width()),
        ensures
            self.wf(),
    {
    }

    /// An array of the given shape with every byte zero.
    pub fn zeroed(height: usize, width: usize) -> (a: Self)
        requires
            rgb24_len(height as int, width as int) <= usize::MAX,
        ensures
            a.wf(),
            a.spec_height() == height,
            a.spec_width() == width,
            a@ == Seq::new(rgb24_len(height as int, width as int) as nat, |i: int| 0u8),
    {
        let n: usize = rgb24_size(height, width).unwrap();
        let data: Vec<u8> = vec![0u8; n];
        assert(data@ =~= Seq::new(n as nat, |i: int| 0u8));
        FrameArray { height, width, data }
    }

    /// Builds an array from its bytes; `None` unless they fill the shape.
    pub fn from_bytes(height: usize, width: usize, data: Vec<u8>) -> (r: Option<Self>)
        ensures
            r is Some <==> data@.len() == rgb24_len(height as int, width as int),
            r matches Some(a) ==> a.wf() && a.spec_height() == height && a.spec_width() == width
                && a@ == data@,
    {
        let len: usize = data.len();
        match rgb24_size(height, width) {
            Some(n) => {
                if len == n {
                    Some(FrameArray { height, width, data })
                } else {
                    None
                }
            },
            None => None,
        }
    }

    /// The shape as `(height, width, channels)`.
    pub fn shape(&self) -> (s: (usize, usize, usize))
        ensures
            s.0 == self.spec_height(),
            s.1 == self.spec_width(),
            s.2 == 3,
    {
        (self.height, self.width, 3)
    }

    pub fn len(&self) -> (n: usize)
        ensures
            n == self@.len(),
    {
        self.data.len()
    }

    /// The bytes, row by row.
    pub fn as_bytes(&self) -> (b: &Vec<u8>)
        ensures
            b@ == self@,
    {
        &self.data
    }

    /// Overwrites the byte at `index`.
    pub fn set(&mut self, index: usize, value: u8)
        requires
            index < old(self)@.len(),
        ensures
            final(self)@ == old(self)@.update(index as int, value),
            final(self).spec_height() == old(self).spec_height(),
            final(self).spec_width() == old(self).spec_width(),
            old(self).wf() ==> final(self).wf(),
    {
        self.data.set(index, value);
    }
}

} // verus!
