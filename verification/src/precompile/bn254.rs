//! The curve that EIP-196 and EIP-197 compute on.
//!
//! A point of the first group is given by two coordinates of 32 bytes, one of the second group
//! by four, the imaginary parts first. All zeros stand for the point at infinity.

use crate::interpreter::be_word::load_be_word;
use crate::primitives::be;
use substrate_bn::{
    pairing_batch, AffineG1, AffineG2, FieldError, Fq, Fq2, Fr, GroupError, Gt, G1, G2,
};
use vstd::prelude::*;
use vstd::slice::{slice_subrange, slice_to_vec};

verus! {

/// The length of a coordinate.
pub const FQ_LEN: usize = 32;

/// The length of a scalar.
pub const SCALAR_LEN: usize = 32;

/// The length of a pair of coordinates.
pub const FQ2_LEN: usize = 64;

/// The length of a point of the first group.
pub const G1_LEN: usize = 64;

/// The length of a point of the second group.
pub const G2_LEN: usize = 128;

/// Why a precompile failed.
#[derive(Clone, Copy, Debug, PartialEq, Eq, Structural)]
pub enum PrecompileError {
    /// A coordinate is not below the modulus.
    Bn254FieldPointNotAMember,
    /// The coordinates are not those of a point.
    Bn254AffineGFailedToCreate,
}

/// The modulus of the coordinates.
pub open spec fn field_modulus() -> int {
    0x30644e72e131a029b85045b68181585d97816a916871ca8d3c208c16d87cfd47int
}

/// The order of the groups.
pub open spec fn group_order() -> int {
    0x30644e72e131a029b85045b68181585d2833e84879b9709143e1f593f0000001int
}

/// Whether bytes are a coordinate.
pub open spec fn is_member(bytes: Seq<u8>) -> bool {
    bytes.len() == 32 && be::be_val(bytes) < field_modulus()
}

/// The coordinate at a place.
pub open spec fn coordinate(bytes: Seq<u8>, i: int) -> Seq<u8> {
    bytes.subrange(32 * i, 32 * i + 32)
}

/// Whether two coordinates satisfy the equation of the first curve, `y^2 = x^3 + 3`.
pub open spec fn on_curve(x: int, y: int) -> bool {
    (y * y) % field_modulus() == (x * x * x + 3) % field_modulus()
}

/// Whether bytes are the coordinates of a point of the first group, other than infinity.
pub open spec fn is_g1(bytes: Seq<u8>) -> bool {
    &&& bytes.len() == 64
    &&& is_member(coordinate(bytes, 0))
    &&& is_member(coordinate(bytes, 1))
    &&& on_curve(be::be_val(coordinate(bytes, 0)), be::be_val(coordinate(bytes, 1)))
}

/// Whether bytes are four coordinates.
pub open spec fn is_g2_shaped(bytes: Seq<u8>) -> bool {
    &&& bytes.len() == 128
    &&& is_member(coordinate(bytes, 0))
    &&& is_member(coordinate(bytes, 1))
    &&& is_member(coordinate(bytes, 2))
    &&& is_member(coordinate(bytes, 3))
}

/// Whether four coordinates are those of a point of the second group, as
/// `AffineG2::new` of `substrate_bn` finds it.
pub uninterp spec fn in_g2(bytes: Seq<u8>) -> bool;

/// Whether bytes are the coordinates of a point of the second group, other than infinity.
pub open spec fn is_g2(bytes: Seq<u8>) -> bool {
    is_g2_shaped(bytes) && in_g2(bytes)
}

/// The sum of two points of the first group as `substrate_bn` computes it; `None` is infinity.
pub uninterp spec fn g1_sum(a: Seq<u8>, b: Seq<u8>) -> Option<Seq<u8>>;

/// The product of a point of the first group with a number as `substrate_bn` computes it; `None` is
/// infinity.
pub uninterp spec fn g1_product(a: Seq<u8>, scalar: int) -> Option<Seq<u8>>;

/// Whether the product of the pairings of points is one, as `substrate_bn` computes it.
pub uninterp spec fn pairing_is_one(pairs: Seq<(Seq<u8>, Seq<u8>)>) -> bool;

/// The error of `substrate_bn` for a coordinate.
#[verifier::external_type_specification]
#[verifier::external_body]
pub struct ExFieldError(FieldError);

/// The error of `substrate_bn` for a point.
#[verifier::external_type_specification]
#[verifier::external_body]
pub struct ExGroupError(GroupError);

/// `substrate_bn::Fq::from_slice`: takes 32 bytes that spell, most significant first, a number below the
/// modulus, and nothing else. The element itself is not kept.
#[verifier::external_body]
fn fq_from_slice(bytes: &[u8]) -> (r: Result<(), FieldError>)
    ensures
        r is Ok <==> is_member(bytes@),
{
    Fq::from_slice(bytes).map(|_| ())
}

/// `substrate_bn::AffineG1::new`: takes coordinates that satisfy the equation of the curve, and no
/// others. The first group is the whole curve, so nothing else is asked.
#[verifier::external_body]
fn affine_g1_new(x: &[u8], y: &[u8]) -> (r: Result<(), GroupError>)
    requires
        is_member(x@),
        is_member(y@),
    ensures
        r is Ok <==> on_curve(be::be_val(x@), be::be_val(y@)),
{
    let px = Fq::from_slice(x).unwrap();
    let py = Fq::from_slice(y).unwrap();
    AffineG1::new(px, py).map(|_| ())
}

/// `substrate_bn::AffineG2::new`: tells whether four coordinates are those of a point of the second
/// group, that is, on the twisted curve and of the right order. This is a function of the
/// bytes; what it is on given bytes is left to its name.
#[verifier::external_body]
fn affine_g2_new(bytes: &[u8]) -> (r: Result<(), GroupError>)
    requires
        is_g2_shaped(bytes@),
    ensures
        (r is Ok) == in_g2(bytes@),
{
    let x_im = Fq::from_slice(&bytes[0..32]).unwrap();
    let x_re = Fq::from_slice(&bytes[32..64]).unwrap();
    let y_im = Fq::from_slice(&bytes[64..96]).unwrap();
    let y_re = Fq::from_slice(&bytes[96..128]).unwrap();
    AffineG2::new(Fq2::new(x_re, x_im), Fq2::new(y_re, y_im)).map(|_| ())
}

/// `substrate_bn::Fr::from_slice`: takes any 32 bytes and reduces the number that they spell by the order
/// of the groups. The scalar is handed back as the 32 bytes of the reduced number.
#[verifier::external_body]
fn fr_from_slice(bytes: &[u8]) -> (r: Vec<u8>)
    requires
        bytes@.len() == 32,
    ensures
        r@.len() == 32,
        be::be_val(r@) == be::be_val(bytes@) % group_order(),
{
    let mut out = vec![0u8; 32];
    Fr::from_slice(bytes).unwrap().into_u256().to_big_endian(&mut out).unwrap();
    out
}

/// `substrate_bn::G1`'s addition, between points given and handed back by their coordinates. The sum is a
/// function of the two points, and the same if they change places: the formulas of
/// `<G1 as Add>::add` are symmetric up to the sign of `y` and `z`, which cancels in `y / z^3`. What it
/// is on given points is left to its name.
#[verifier::external_body]
fn bn_g1_add(a: &[u8], b: &[u8]) -> (r: Option<Vec<u8>>)
    requires
        is_g1(a@),
        is_g1(b@),
    ensures
        g1_view(r) == g1_sum(a@, b@),
        g1_view(r) == g1_sum(b@, a@),
        r matches Some(p) ==> p@.len() == 64,
{
    let ax = Fq::from_slice(&a[0..32]).unwrap();
    let ay = Fq::from_slice(&a[32..64]).unwrap();
    let bx = Fq::from_slice(&b[0..32]).unwrap();
    let by = Fq::from_slice(&b[32..64]).unwrap();
    let p = G1::from(AffineG1::new(ax, ay).unwrap());
    let q = G1::from(AffineG1::new(bx, by).unwrap());
    let sum = AffineG1::from_jacobian(p + q)?;
    let mut out = vec![0u8; 64];
    sum.x().to_big_endian(&mut out[0..32]).unwrap();
    sum.y().to_big_endian(&mut out[32..64]).unwrap();
    Some(out)
}

/// `substrate_bn::G1`'s multiplication by a `substrate_bn::Fr`, on a point given and handed back by its
/// coordinates. The product is a function of the point and the scalar; what it is on given
/// ones is left to its name.
#[verifier::external_body]
fn bn_g1_mul(a: &[u8], scalar: &[u8]) -> (r: Option<Vec<u8>>)
    requires
        is_g1(a@),
        scalar@.len() == 32,
    ensures
        g1_view(r) == g1_product(a@, be::be_val(scalar@)),
        r matches Some(p) ==> p@.len() == 64,
{
    let ax = Fq::from_slice(&a[0..32]).unwrap();
    let ay = Fq::from_slice(&a[32..64]).unwrap();
    let p = G1::from(AffineG1::new(ax, ay).unwrap());
    let product = AffineG1::from_jacobian(p * Fr::from_slice(scalar).unwrap())?;
    let mut out = vec![0u8; 64];
    product.x().to_big_endian(&mut out[0..32]).unwrap();
    product.y().to_big_endian(&mut out[32..64]).unwrap();
    Some(out)
}

/// `substrate_bn::pairing_batch`, and whether what it returns is `substrate_bn::Gt::one()`. This is a function of
/// the points; what it is on given points is left to its name.
#[verifier::external_body]
fn bn_pairing_is_one(pairs: &Vec<(Vec<u8>, Vec<u8>)>) -> (r: bool)
    requires
        forall|i: int|
            0 <= i < pairs@.len() ==> is_g1((#[trigger] pairs@[i]).0@) && is_g2(pairs@[i].1@),
    ensures
        r == pairing_is_one(pair_views(pairs@)),
{
    let points: Vec<(G1, G2)> = pairs.iter().map(|(p, q)| {
        let f = |b: &[u8]| Fq::from_slice(b).unwrap();
        let x = Fq2::new(f(&q[32..64]), f(&q[0..32]));
        let y = Fq2::new(f(&q[96..128]), f(&q[64..96]));
        let g1 = AffineG1::new(f(&p[0..32]), f(&p[32..64])).unwrap();
        (G1::from(g1), G2::from(AffineG2::new(x, y).unwrap()))
    }).collect();
    pairing_batch(&points) == Gt::one()
}

/// A point, by its bytes.
pub open spec fn g1_view(p: Option<Vec<u8>>) -> Option<Seq<u8>> {
    match p {
        Some(v) => Some(v@),
        None => None,
    }
}

/// Pairs of points, by their bytes.
pub open spec fn pair_views(pairs: Seq<(Vec<u8>, Vec<u8>)>) -> Seq<(Seq<u8>, Seq<u8>)> {
    Seq::new(pairs.len(), |i: int| (pairs[i].0@, pairs[i].1@))
}

/// Reads the 32 bytes at a place as a coordinate.
fn read_fq(input: &[u8], at: usize) -> (r: Result<(), PrecompileError>)
    requires
        at + 32 <= input.len(),
    ensures
        r is Ok <==> is_member(input@.subrange(at as int, at + 32)),
        r matches Err(e) ==> e == PrecompileError::Bn254FieldPointNotAMember,
{
    match fq_from_slice(slice_subrange(input, at, at + 32)) {
        Ok(_) => Ok(()),
        Err(_) => Err(PrecompileError::Bn254FieldPointNotAMember),
    }
}

/// Whether all bytes are zero.
fn is_zero(bytes: &[u8]) -> (r: bool)
    ensures
        r == all_zero(bytes@),
{
    let mut i: usize = 0;
    while i < bytes.len()
        invariant
            i <= bytes.len(),
            forall|j: int| 0 <= j < i ==> bytes@[j] == 0,
        decreases bytes.len() - i,
    {
        if bytes[i] != 0 {
            return false;
        }
        i = i + 1;
    }
    true
}

/// All bytes are zero.
pub open spec fn all_zero(bytes: Seq<u8>) -> bool {
    forall|i: int| 0 <= i < bytes.len() ==> bytes[i] == 0
}

/// What 64 bytes say: a point of the first group, or infinity as `None`.
pub open spec fn g1_read(bytes: Seq<u8>) -> Result<Option<Seq<u8>>, PrecompileError> {
    if !is_member(coordinate(bytes, 0)) || !is_member(coordinate(bytes, 1)) {
        Err(PrecompileError::Bn254FieldPointNotAMember)
    } else if all_zero(bytes) {
        Ok(None)
    } else if on_curve(be::be_val(coordinate(bytes, 0)), be::be_val(coordinate(bytes, 1))) {
        Ok(Some(bytes))
    } else {
        Err(PrecompileError::Bn254AffineGFailedToCreate)
    }
}

/// What 128 bytes say: a point of the second group, or infinity as `None`.
pub open spec fn g2_read(bytes: Seq<u8>) -> Result<Option<Seq<u8>>, PrecompileError> {
    if !is_g2_shaped(bytes) {
        Err(PrecompileError::Bn254FieldPointNotAMember)
    } else if all_zero(bytes) {
        Ok(None)
    } else if in_g2(bytes) {
        Ok(Some(bytes))
    } else {
        Err(PrecompileError::Bn254AffineGFailedToCreate)
    }
}

/// What was read, by its bytes.
pub open spec fn read_view(r: Result<Option<Vec<u8>>, PrecompileError>) -> Result<
    Option<Seq<u8>>,
    PrecompileError,
> {
    match r {
        Ok(p) => Ok(g1_view(p)),
        Err(e) => Err(e),
    }
}

/// Reads a point of the first group. `None` is the point at infinity.
pub fn read_g1_point(input: &[u8]) -> (r: Result<Option<Vec<u8>>, PrecompileError>)
    requires
        input.len() >= G1_LEN,
    ensures
        read_view(r) == g1_read(input@.subrange(0, 64)),
{
    let bytes = slice_subrange(input, 0, G1_LEN);
    assert(bytes@.subrange(0, 32) =~= coordinate(bytes@, 0));
    assert(bytes@.subrange(32, 64) =~= coordinate(bytes@, 1));
    read_fq(bytes, 0)?;
    read_fq(bytes, FQ_LEN)?;
    if is_zero(bytes) {
        return Ok(None);
    }
    match affine_g1_new(
        slice_subrange(bytes, 0, FQ_LEN),
        slice_subrange(bytes, FQ_LEN, G1_LEN),
    ) {
        Ok(_) => Ok(Some(slice_to_vec(bytes))),
        Err(_) => Err(PrecompileError::Bn254AffineGFailedToCreate),
    }
}

/// Reads a point of the second group. `None` is the point at infinity.
pub fn read_g2_point(input: &[u8]) -> (r: Result<Option<Vec<u8>>, PrecompileError>)
    requires
        input.len() >= G2_LEN,
    ensures
        read_view(r) == g2_read(input@.subrange(0, 128)),
{
    let bytes = slice_subrange(input, 0, G2_LEN);
    read_fq(bytes, 0)?;
    read_fq(bytes, FQ_LEN)?;
    read_fq(bytes, FQ2_LEN)?;
    read_fq(bytes, FQ2_LEN + FQ_LEN)?;
    if is_zero(bytes) {
        return Ok(None);
    }
    match affine_g2_new(bytes) {
        Ok(_) => Ok(Some(slice_to_vec(bytes))),
        Err(_) => Err(PrecompileError::Bn254AffineGFailedToCreate),
    }
}

/// The 64 bytes of a point; infinity is all zeros.
pub open spec fn g1_encoded(point: Option<Seq<u8>>) -> Seq<u8> {
    match point {
        Some(bytes) => bytes,
        None => Seq::new(64, |i: int| 0u8),
    }
}

/// Spells out a point. `None` is the point at infinity.
pub fn encode_g1_point(point: Option<Vec<u8>>) -> (r: Vec<u8>)
    ensures
        r@ == g1_encoded(g1_view(point)),
{
    match point {
        Some(bytes) => bytes,
        None => {
            let r: Vec<u8> = vec![0; 64];
            assert(r@ =~= Seq::new(64, |i: int| 0u8));
            r
        },
    }
}

/// Reads a scalar, which need not be below the order of the groups: 32 bytes, reduced.
pub fn read_scalar(input: &[u8]) -> (r: Vec<u8>)
    requires
        input.len() == SCALAR_LEN,
    ensures
        r@.len() == 32,
        be::be_val(r@) == be::be_val(input@) % group_order(),
{
    fr_from_slice(input)
}

/// The sum of two points of which either may be infinity. Two points with the same first
/// coordinate and different second ones are inverses.
pub open spec fn g1_added(a: Option<Seq<u8>>, b: Option<Seq<u8>>) -> Option<Seq<u8>> {
    match (a, b) {
        (None, None) => None,
        (Some(p), None) => Some(p),
        (None, Some(q)) => Some(q),
        (Some(p), Some(q)) => {
            if be::be_val(coordinate(p, 0)) == be::be_val(coordinate(q, 0)) && be::be_val(
                coordinate(p, 1),
            ) != be::be_val(coordinate(q, 1)) {
                None
            } else {
                g1_sum(p, q)
            }
        },
    }
}

/// Adds two points of which either may be infinity. Points that change places have the same
/// sum.
pub fn add_points(a: Option<Vec<u8>>, b: Option<Vec<u8>>) -> (r: Option<Vec<u8>>)
    requires
        a matches Some(p) ==> is_g1(p@),
        b matches Some(q) ==> is_g1(q@),
    ensures
        g1_view(r) == g1_added(g1_view(a), g1_view(b)),
        g1_view(r) == g1_added(g1_view(b), g1_view(a)),
        r matches Some(p) ==> p@.len() == 64,
{
    match (a, b) {
        (None, None) => None,
        (Some(p), None) => Some(p),
        (None, Some(q)) => Some(q),
        (Some(p), Some(q)) => {
            let same_x: bool = load_be_word(p.as_slice(), 0).same(
                &load_be_word(q.as_slice(), 0),
            );
            let same_y: bool = load_be_word(p.as_slice(), FQ_LEN).same(
                &load_be_word(q.as_slice(), FQ_LEN),
            );
            if same_x && !same_y {
                None
            } else {
                bn_g1_add(p.as_slice(), q.as_slice())
            }
        },
    }
}

/// What the addition makes of two points that were read.
pub open spec fn add_result(
    p1: Result<Option<Seq<u8>>, PrecompileError>,
    p2: Result<Option<Seq<u8>>, PrecompileError>,
) -> Result<Seq<u8>, PrecompileError> {
    match (p1, p2) {
        (Err(e), _) => Err(e),
        (Ok(_), Err(e)) => Err(e),
        (Ok(a), Ok(b)) => Ok(g1_encoded(g1_added(a, b))),
    }
}

/// A result, by its bytes.
pub open spec fn bytes_view(r: Result<Vec<u8>, PrecompileError>) -> Result<
    Seq<u8>,
    PrecompileError,
> {
    match r {
        Ok(v) => Ok(v@),
        Err(e) => Err(e),
    }
}

/// Adds two points of the first group. Operands that change places give the same sum.
pub fn g1_point_add(p1_bytes: &[u8], p2_bytes: &[u8]) -> (r: Result<Vec<u8>, PrecompileError>)
    requires
        p1_bytes.len() >= G1_LEN,
        p2_bytes.len() >= G1_LEN,
    ensures
        bytes_view(r) == add_result(
            g1_read(p1_bytes@.subrange(0, 64)),
            g1_read(p2_bytes@.subrange(0, 64)),
        ),
        r is Ok ==> bytes_view(r) == add_result(
            g1_read(p2_bytes@.subrange(0, 64)),
            g1_read(p1_bytes@.subrange(0, 64)),
        ),
        r matches Ok(v) ==> v@.len() == 64,
{
    let p1 = match read_g1_point(p1_bytes) {
        Ok(p) => p,
        Err(e) => {
            return Err(e);
        },
    };
    let p2 = match read_g1_point(p2_bytes) {
        Ok(p) => p,
        Err(e) => {
            return Err(e);
        },
    };
    Ok(encode_g1_point(add_points(p1, p2)))
}

/// The product of a point that may be infinity with a number below the order of the groups.
pub open spec fn g1_multiplied(p: Option<Seq<u8>>, scalar: int) -> Option<Seq<u8>> {
    match p {
        None => None,
        Some(a) => {
            if scalar == 0 {
                None
            } else {
                g1_product(a, scalar)
            }
        },
    }
}

/// Multiplies a point that may be infinity with a scalar that was read.
pub fn multiply_point(p: Option<Vec<u8>>, scalar: &[u8]) -> (r: Option<Vec<u8>>)
    requires
        p matches Some(a) ==> is_g1(a@),
        scalar.len() == SCALAR_LEN,
    ensures
        g1_view(r) == g1_multiplied(g1_view(p), be::be_val(scalar@)),
        r matches Some(v) ==> v@.len() == 64,
{
    assert(scalar@.subrange(0, 32) =~= scalar@);
    match p {
        None => None,
        Some(a) => {
            if load_be_word(scalar, 0).is_zero() {
                None
            } else {
                bn_g1_mul(a.as_slice(), scalar)
            }
        },
    }
}

/// What the multiplication makes of a point that was read and a reduced scalar.
pub open spec fn mul_result(
    p: Result<Option<Seq<u8>>, PrecompileError>,
    scalar: int,
) -> Result<Seq<u8>, PrecompileError> {
    match p {
        Err(e) => Err(e),
        Ok(a) => Ok(g1_encoded(g1_multiplied(a, scalar))),
    }
}

/// Multiplies a point of the first group with a scalar.
pub fn g1_point_mul(point_bytes: &[u8], fr_bytes: &[u8]) -> (r: Result<Vec<u8>, PrecompileError>)
    requires
        point_bytes.len() >= G1_LEN,
        fr_bytes.len() == SCALAR_LEN,
    ensures
        bytes_view(r) == mul_result(
            g1_read(point_bytes@.subrange(0, 64)),
            be::be_val(fr_bytes@) % group_order(),
        ),
        r matches Ok(v) ==> v@.len() == 64,
{
    let p = match read_g1_point(point_bytes) {
        Ok(p) => p,
        Err(e) => {
            return Err(e);
        },
    };
    let scalar = read_scalar(fr_bytes);
    Ok(encode_g1_point(multiply_point(p, scalar.as_slice())))
}

/// The pairs of points among the first `n` of which neither is infinity, or the first error.
pub open spec fn pairs_read(pairs: Seq<(Seq<u8>, Seq<u8>)>, n: nat) -> Result<
    Seq<(Seq<u8>, Seq<u8>)>,
    PrecompileError,
>
    decreases n,
{
    if n == 0 {
        Ok(Seq::empty())
    } else {
        let (b1, b2) = pairs[n - 1];
        match pairs_read(pairs, (n - 1) as nat) {
            Err(e) => Err(e),
            Ok(s) => match (g1_read(b1.subrange(0, 64)), g2_read(b2.subrange(0, 128))) {
                (Err(e), _) => Err(e),
                (Ok(_), Err(e)) => Err(e),
                (Ok(Some(p)), Ok(Some(q))) => Ok(s.push((p, q))),
                (Ok(_), Ok(_)) => Ok(s),
            },
        }
    }
}

/// Whether the product of the pairings of points is one. Pairs with a point at infinity do not
/// count.
pub fn pairing_check(pairs: &[(&[u8], &[u8])]) -> (r: Result<bool, PrecompileError>)
    requires
        forall|i: int|
            0 <= i < pairs@.len() ==> (#[trigger] pairs@[i]).0@.len() >= 64 && pairs@[i].1@.len()
                >= 128,
    ensures
        match pairs_read(slices_view(pairs@), pairs@.len()) {
            Err(e) => r == Err::<bool, _>(e),
            Ok(s) => r == Ok::<_, PrecompileError>(s.len() == 0 || pairing_is_one(s)),
        },
{
    let mut parsed: Vec<(Vec<u8>, Vec<u8>)> = Vec::new();
    assert(pair_views(parsed@) =~= Seq::empty());
    let mut i: usize = 0;
    while i < pairs.len()
        invariant
            i <= pairs@.len(),
            forall|j: int|
                0 <= j < pairs@.len() ==> (#[trigger] pairs@[j]).0@.len() >= 64
                    && pairs@[j].1@.len() >= 128,
            pairs_read(slices_view(pairs@), i as nat) == Ok::<_, PrecompileError>(
                pair_views(parsed@),
            ),
            forall|j: int|
                0 <= j < parsed@.len() ==> is_g1((#[trigger] parsed@[j]).0@) && is_g2(
                    parsed@[j].1@,
                ),
        decreases pairs@.len() - i,
    {
        let (g1_bytes, g2_bytes) = pairs[i];
        proof {
            lemma_read_error(slices_view(pairs@), (i + 1) as nat, pairs@.len());
        }
        let g1 = match read_g1_point(g1_bytes) {
            Ok(p) => p,
            Err(e) => {
                return Err(e);
            },
        };
        let g2 = match read_g2_point(g2_bytes) {
            Ok(q) => q,
            Err(e) => {
                return Err(e);
            },
        };
        if let (Some(p), Some(q)) = (g1, g2) {
            let ghost before = pair_views(parsed@);
            parsed.push((p, q));
            assert(pair_views(parsed@) =~= before.push((p@, q@)));
        }
        i = i + 1;
    }
    if parsed.len() == 0 {
        return Ok(true);
    }
    Ok(bn_pairing_is_one(&parsed))
}

/// The input of a pairing check, by its bytes.
pub open spec fn slices_view(pairs: Seq<(&[u8], &[u8])>) -> Seq<(Seq<u8>, Seq<u8>)> {
    Seq::new(pairs.len(), |i: int| (pairs[i].0@, pairs[i].1@))
}

/// The first error stays.
proof fn lemma_read_error(pairs: Seq<(Seq<u8>, Seq<u8>)>, i: nat, n: nat)
    requires
        i <= n,
    ensures
        pairs_read(pairs, i) is Err ==> pairs_read(pairs, n) == pairs_read(pairs, i),
    decreases n,
{
    if i < n {
        lemma_read_error(pairs, i, (n - 1) as nat);
    }
}

/// A point that was read is spelled out as it was given.
pub proof fn a_point_is_spelled_as_it_was_read(bytes: Seq<u8>)
    requires
        bytes.len() == 64,
        g1_read(bytes) is Ok,
    ensures
        g1_encoded(g1_read(bytes)->Ok_0) == bytes,
{
    assert(g1_encoded(g1_read(bytes)->Ok_0) =~= bytes);
}

/// Infinity is neutral: adding it, or multiplying it, changes nothing, and a point times zero
/// is infinity.
pub proof fn infinity_is_neutral(p: Option<Seq<u8>>, scalar: int)
    ensures
        g1_added(p, None) == p,
        g1_added(None, p) == p,
        g1_multiplied(None, scalar) == None::<Seq<u8>>,
        g1_multiplied(p, 0) == None::<Seq<u8>>,
{
}

/// A point and its opposite, whose second coordinates add up to the modulus, add up to
/// infinity, which is spelled as zeros.
pub proof fn a_point_and_its_opposite_cancel(p: Seq<u8>, q: Seq<u8>)
    requires
        is_g1(p),
        is_g1(q),
        be::be_val(coordinate(p, 0)) == be::be_val(coordinate(q, 0)),
        be::be_val(coordinate(p, 1)) + be::be_val(coordinate(q, 1)) == field_modulus(),
    ensures
        g1_added(Some(p), Some(q)) == None::<Seq<u8>>,
        add_result(Ok(Some(p)), Ok(Some(q))) == Ok::<_, PrecompileError>(
            Seq::new(64, |i: int| 0u8),
        ),
{
}

} // verus!
