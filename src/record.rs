//! The image record: the attributes of one JPEG file that duplicate detection
//! compares, with their equality and their order.
use vstd::prelude::*;
use crate::timestamp::Timestamp;

verus! {

/// An exposure time held as an exact fraction `numer / denom`.
pub struct Exposure {
    pub numer: i32,
    pub denom: i32,
}

impl Exposure {
    /// A fraction with a positive denominator.
    pub open spec fn wf(&self) -> bool {
        self.denom > 0
    }

    /// Equality of the two fractions as rational numbers.
    pub open spec fn same_value(&self, other: &Exposure) -> bool {
        self.numer * other.denom == other.numer * self.denom
    }

    /// The default exposure, `0/1`.
    pub fn zero() -> (r: Exposure)
        ensures
            r.numer == 0,
            r.denom == 1,
    {
        Exposure { numer: 0, denom: 1 }
    }

    /// Compares the two fractions exactly, by cross-multiplication.
    pub fn eq_value(&self, other: &Exposure) -> (r: bool)
        ensures
            r == self.same_value(other),
    {
        proof {
            lemma_i32_product_fits(self.numer, other.denom);
            lemma_i32_product_fits(other.numer, self.denom);
        }
        let lhs: i64 = self.numer as i64 * other.denom as i64;
        let rhs: i64 = other.numer as i64 * self.denom as i64;
        lhs == rhs
    }
}

proof fn lemma_i32_product_fits(a: i32, b: i32)
    ensures
        i64::MIN <= a * b <= i64::MAX,
{
    assert(-0x4000_0000_0000_0000 <= a * b <= 0x4000_0000_0000_0000) by (nonlinear_arith)
        requires
            -0x8000_0000 <= a < 0x8000_0000,
            -0x8000_0000 <= b < 0x8000_0000,
    ;
}

/// The bit pattern of an IEEE 754 double that stands for NaN.
pub open spec fn is_nan_bits(bits: u64) -> bool {
    &&& bits & 0x7ff0_0000_0000_0000u64 == 0x7ff0_0000_0000_0000u64
    &&& bits & 0x000f_ffff_ffff_ffffu64 != 0
}

/// The bit pattern of `0.0` or `-0.0`.
pub open spec fn is_zero_bits(bits: u64) -> bool {
    bits & 0x7fff_ffff_ffff_ffffu64 == 0
}

/// Equality of two doubles given by their bit patterns, made an equivalence:
/// every NaN equals every NaN, the two zeros are equal, and otherwise equal
/// values have equal bits.
pub open spec fn float_bits_eq(a: u64, b: u64) -> bool {
    ||| is_nan_bits(a) && is_nan_bits(b)
    ||| a == b
    ||| is_zero_bits(a) && is_zero_bits(b)
}

/// An aperture (f-number), held as the bit pattern of the double that the
/// metadata gives.
pub struct Aperture {
    pub bits: u64,
}

impl Aperture {
    /// The default aperture, `0.0`.
    pub fn zero() -> (r: Aperture)
        ensures
            r.bits == 0,
    {
        Aperture { bits: 0 }
    }

    /// Compares the two apertures as doubles are compared, except that a NaN
    /// equals a NaN, so that a record always equals itself.
    pub fn eq_value(&self, other: &Aperture) -> (r: bool)
        ensures
            r == float_bits_eq(self.bits, other.bits),
    {
        let a = self.bits;
        let b = other.bits;
        let a_nan = a & 0x7ff0_0000_0000_0000u64 == 0x7ff0_0000_0000_0000u64
            && a & 0x000f_ffff_ffff_ffffu64 != 0;
        let b_nan = b & 0x7ff0_0000_0000_0000u64 == 0x7ff0_0000_0000_0000u64
            && b & 0x000f_ffff_ffff_ffffu64 != 0;
        let both_zero = a & 0x7fff_ffff_ffff_ffffu64 == 0 && b & 0x7fff_ffff_ffff_ffffu64 == 0;
        (a_nan && b_nan) || a == b || both_zero
    }
}

/// One JPEG file found in the tree, with the attributes read from its metadata.
pub struct ImgRef {
    pub path_string: String,
    pub created: Timestamp,
    pub width: i32,
    pub height: i32,
    pub exposure_time: Exposure,
    pub fnumber: Aperture,
}

/// Two records describe the same image: equal creation time, size, exposure
/// time (as a rational) and aperture. The path takes no part.
pub open spec fn same_image(a: ImgRef, b: ImgRef) -> bool {
    &&& a.created.millis == b.created.millis
    &&& a.width == b.width
    &&& a.height == b.height
    &&& float_bits_eq(a.fnumber.bits, b.fnumber.bits)
    &&& a.exposure_time.same_value(&b.exposure_time)
}

impl ImgRef {
    /// The exposure time is a well-formed fraction.
    pub open spec fn wf(&self) -> bool {
        self.exposure_time.wf()
    }

    /// Builds a record from what the metadata gave. A missing creation time
    /// gives the epoch, a missing exposure time `0/1`, a missing aperture `0.0`;
    /// creation-time text is read as `Timestamp::from_string` reads it.
    pub fn from_metadata(
        path_string: String,
        created_text: Option<&str>,
        width: i32,
        height: i32,
        exposure_time: Option<Exposure>,
        fnumber: Option<Aperture>,
    ) -> (r: ImgRef)
        requires
            exposure_time matches Some(e) ==> e.wf(),
        ensures
            r.wf(),
            r.path_string@ == path_string@,
            r.created.millis == match created_text {
                Some(t) => crate::timestamp::millis_or_epoch(
                    crate::timestamp::utc_millis_of(t@, crate::timestamp::exif_layout()),
                ),
                None => 0,
            },
            r.width == width,
            r.height == height,
            r.exposure_time == match exposure_time {
                Some(e) => e,
                None => Exposure { numer: 0, denom: 1 },
            },
            r.fnumber == match fnumber {
                Some(f) => f,
                None => Aperture { bits: 0 },
            },
    {
        let created = match created_text {
            Some(t) => Timestamp::from_string(t),
            None => Timestamp::epoch(),
        };
        let exposure_time = match exposure_time {
            Some(e) => e,
            None => Exposure::zero(),
        };
        let fnumber = match fnumber {
            Some(f) => f,
            None => Aperture::zero(),
        };
        ImgRef { path_string, created, width, height, exposure_time, fnumber }
    }

    /// Orders two records by creation time alone.
    pub fn cmp(&self, other: &ImgRef) -> (r: core::cmp::Ordering)
        ensures
            r == ordering_of(self.created.millis, other.created.millis),
    {
        if self.created.millis < other.created.millis {
            core::cmp::Ordering::Less
        } else if self.created.millis > other.created.millis {
            core::cmp::Ordering::Greater
        } else {
            core::cmp::Ordering::Equal
        }
    }
}

/// The ordering of two integers.
pub open spec fn ordering_of(a: i64, b: i64) -> core::cmp::Ordering {
    if a < b {
        core::cmp::Ordering::Less
    } else if a > b {
        core::cmp::Ordering::Greater
    } else {
        core::cmp::Ordering::Equal
    }
}

impl PartialEq for ImgRef {
    fn eq(&self, other: &ImgRef) -> (r: bool) {
        self.created == other.created && self.width == other.width && self.height == other.height
            && self.fnumber.eq_value(&other.fnumber) && self.exposure_time.eq_value(
            &other.exposure_time,
        )
    }
}

impl vstd::std_specs::cmp::PartialEqSpecImpl for ImgRef {
    open spec fn obeys_eq_spec() -> bool {
        true
    }

    open spec fn eq_spec(&self, other: &ImgRef) -> bool {
        same_image(*self, *other)
    }
}

impl Eq for ImgRef {}

impl PartialOrd for ImgRef {
    fn partial_cmp(&self, other: &ImgRef) -> (r: Option<core::cmp::Ordering>) {
        Some(self.cmp(other))
    }
}

impl vstd::std_specs::cmp::PartialOrdSpecImpl for ImgRef {
    open spec fn obeys_partial_cmp_spec() -> bool {
        true
    }

    open spec fn partial_cmp_spec(&self, other: &ImgRef) -> Option<core::cmp::Ordering> {
        Some(ordering_of(self.created.millis, other.created.millis))
    }
}

proof fn lemma_cross_product_transitive(a: Exposure, b: Exposure, c: Exposure)
    requires
        b.wf(),
        a.same_value(&b),
        b.same_value(&c),
    ensures
        a.same_value(&c),
{
    let (an, ad, bn, bd, cn, cd) = (
        a.numer as int,
        a.denom as int,
        b.numer as int,
        b.denom as int,
        c.numer as int,
        c.denom as int,
    );
    assert(bd * (an * cd - cn * ad) == 0) by (nonlinear_arith)
        requires
            an * bd == bn * ad,
            bn * cd == cn * bd,
    ;
    assert(an * cd - cn * ad == 0) by (nonlinear_arith)
        requires
            bd * (an * cd - cn * ad) == 0,
            bd > 0,
    ;
}

/// Equality of records is an equivalence on records whose exposure times are
/// well formed; the path takes no part in it.
pub proof fn lemma_same_image_equivalence(a: ImgRef, b: ImgRef, c: ImgRef, p: String)
    requires
        a.wf(),
        b.wf(),
        c.wf(),
    ensures
        same_image(a, a),
        same_image(a, b) ==> same_image(b, a),
        same_image(a, b) && same_image(b, c) ==> same_image(a, c),
        same_image(a, b) == same_image(ImgRef { path_string: p, ..a }, b),
{
    let x = b.fnumber.bits;
    assert(x & 0x7fff_ffff_ffff_ffffu64 == 0 ==> !(x & 0x7ff0_0000_0000_0000u64
        == 0x7ff0_0000_0000_0000u64)) by (bit_vector);
    if same_image(a, b) && same_image(b, c) {
        lemma_cross_product_transitive(a.exposure_time, b.exposure_time, c.exposure_time);
    }
    if same_image(a, b) {
        let (an, ad, bn, bd) = (
            a.exposure_time.numer as int,
            a.exposure_time.denom as int,
            b.exposure_time.numer as int,
            b.exposure_time.denom as int,
        );
        assert(bn * ad == an * bd) by (nonlinear_arith)
            requires
                an * bd == bn * ad,
        ;
    }
}

} // verus!
