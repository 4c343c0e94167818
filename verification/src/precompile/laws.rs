//! What the bytes that are handed to the curve's operations stand for, and what comes back.

use crate::precompile::bn254;
use crate::precompile::bn254::PrecompileError;
use crate::primitives::be;
use vstd::prelude::*;

verus! {

/// The number that 32 bytes from a place on spell.
pub open spec fn number_at(bytes: Seq<u8>, at: int) -> int {
    be::be_val(bytes.subrange(at, at + 32))
}

/// Every coordinate from a place on is below the modulus of the field.
pub open spec fn below_modulus(bytes: Seq<u8>, at: int) -> bool {
    number_at(bytes, at)
        < 21888242871839275222246405745257275088696311157297823662689037894645226208583int
}

/// All bytes up to a place are zero.
pub open spec fn zeros(bytes: Seq<u8>, len: int) -> bool {
    forall|i: int| 0 <= i < len ==> bytes[i] == 0
}

/// What 64 bytes say of a point of the first group: why they are none, or nothing.
pub open spec fn g1_fault(bytes: Seq<u8>) -> Option<PrecompileError> {
    let x = number_at(bytes, 0);
    let y = number_at(bytes, 32);
    let p = 21888242871839275222246405745257275088696311157297823662689037894645226208583int;
    if x >= p || y >= p {
        Some(PrecompileError::Bn254FieldPointNotAMember)
    } else if x == 0 && y == 0 {
        None
    } else if (y * y) % p == (x * x * x + 3) % p {
        None
    } else {
        Some(PrecompileError::Bn254AffineGFailedToCreate)
    }
}

/// What 128 bytes say of a point of the second group: why they are none, or nothing.
pub open spec fn g2_fault(bytes: Seq<u8>) -> Option<PrecompileError> {
    if !below_modulus(bytes, 0) || !below_modulus(bytes, 32) || !below_modulus(bytes, 64)
        || !below_modulus(bytes, 96) {
        Some(PrecompileError::Bn254FieldPointNotAMember)
    } else if zeros(bytes, 128) || bn254::in_g2(bytes) {
        None
    } else {
        Some(PrecompileError::Bn254AffineGFailedToCreate)
    }
}

/// Bytes that spell zero are zeros.
pub proof fn lemma_zero(bytes: Seq<u8>)
    ensures
        be::be_val(bytes) >= 0,
        be::be_val(bytes) == 0 <==> zeros(bytes, bytes.len() as int),
    decreases bytes.len(),
{
    if bytes.len() > 0 {
        lemma_zero(bytes.drop_last());
        let rest = bytes.drop_last();
        if zeros(bytes, bytes.len() as int) {
            assert forall|i: int| 0 <= i < rest.len() implies rest[i] == 0 by {
                assert(bytes[i] == 0);
            }
            assert(bytes[bytes.len() - 1] == 0);
        }
        if be::be_val(bytes) == 0 {
            assert forall|i: int| 0 <= i < bytes.len() implies bytes[i] == 0 by {
                if i < rest.len() {
                    assert(rest[i] == 0);
                }
            }
        }
    }
}

/// Bytes of the first group are read as a point if both coordinates are below the modulus and
/// satisfy `y^2 = x^3 + 3`, and as infinity if both are zero. Else the fault is told.
pub proof fn a_point_is_on_the_curve(bytes: Seq<u8>)
    requires
        bytes.len() == 64,
    ensures
        match g1_fault(bytes) {
            Some(error) => bn254::g1_read(bytes) == Err::<Option<Seq<u8>>, _>(error),
            None => bn254::g1_read(bytes) == Ok::<_, PrecompileError>(
                if zeros(bytes, 64) {
                    None
                } else {
                    Some(bytes)
                },
            ),
        },
{
    let x = bytes.subrange(0, 32);
    let y = bytes.subrange(32, 64);
    lemma_zero(x);
    lemma_zero(y);
    lemma_zero(bytes);
    assert(x =~= bn254::coordinate(bytes, 0));
    assert(y =~= bn254::coordinate(bytes, 1));
    if zeros(x, 32) && zeros(y, 32) {
        assert forall|i: int| 0 <= i < 64 implies bytes[i] == 0 by {
            if i < 32 {
                assert(x[i] == 0);
            } else {
                assert(y[i - 32] == 0);
            }
        }
    }
    if zeros(bytes, 64) {
        assert(zeros(x, 32));
        assert(zeros(y, 32));
    }
}

/// Bytes of the second group are read as a point if the four coordinates are below the modulus
/// and are those of a point, and as infinity if they are zeros. Else the fault is told.
pub proof fn a_point_of_the_second_group_has_four_coordinates(bytes: Seq<u8>)
    requires
        bytes.len() == 128,
    ensures
        match g2_fault(bytes) {
            Some(error) => bn254::g2_read(bytes) == Err::<Option<Seq<u8>>, _>(error),
            None => bn254::g2_read(bytes) == Ok::<_, PrecompileError>(
                if zeros(bytes, 128) {
                    None
                } else {
                    Some(bytes)
                },
            ),
        },
{
    assert(bytes.subrange(0, 32) =~= bn254::coordinate(bytes, 0));
    assert(bytes.subrange(32, 64) =~= bn254::coordinate(bytes, 1));
    assert(bytes.subrange(64, 96) =~= bn254::coordinate(bytes, 2));
    assert(bytes.subrange(96, 128) =~= bn254::coordinate(bytes, 3));
}

/// Two points are added: the first fault is told, infinity changes nothing, two points with one
/// first coordinate and different second ones give infinity, and otherwise the sum is that of
/// the curve.
pub proof fn a_sum_is_of_both_points(a: Seq<u8>, b: Seq<u8>)
    requires
        a.len() == 64,
        b.len() == 64,
    ensures
        ({
            let sum = bn254::add_result(bn254::g1_read(a), bn254::g1_read(b));
            if g1_fault(a) is Some {
                sum == Err::<Seq<u8>, _>(g1_fault(a)->0)
            } else if g1_fault(b) is Some {
                sum == Err::<Seq<u8>, _>(g1_fault(b)->0)
            } else if zeros(a, 64) {
                sum == Ok::<_, PrecompileError>(b)
            } else if zeros(b, 64) {
                sum == Ok::<_, PrecompileError>(a)
            } else if number_at(a, 0) == number_at(b, 0) && number_at(a, 32) != number_at(b, 32) {
                sum is Ok && sum->Ok_0.len() == 64 && zeros(sum->Ok_0, 64)
            } else {
                match bn254::g1_sum(a, b) {
                    Some(c) => sum == Ok::<_, PrecompileError>(c),
                    None => sum is Ok && sum->Ok_0.len() == 64 && zeros(sum->Ok_0, 64),
                }
            }
        }),
{
    a_point_is_on_the_curve(a);
    a_point_is_on_the_curve(b);
    assert(a.subrange(0, 32) =~= bn254::coordinate(a, 0));
    assert(a.subrange(32, 64) =~= bn254::coordinate(a, 1));
    assert(b.subrange(0, 32) =~= bn254::coordinate(b, 0));
    assert(b.subrange(32, 64) =~= bn254::coordinate(b, 1));
    if zeros(a, 64) && zeros(b, 64) {
        assert(bn254::g1_encoded(None) =~= b);
    }
}

/// A point is multiplied with a number, which is reduced by the order of the group first:
/// infinity, and any point times a multiple of the order, give infinity.
pub proof fn a_product_is_of_the_reduced_number(a: Seq<u8>, factor: Seq<u8>)
    requires
        a.len() == 64,
        factor.len() == 32,
    ensures
        ({
            let reduced = be::be_val(factor)
                % 21888242871839275222246405745257275088548364400416034343698204186575808495617int;
            let product = bn254::mul_result(
                bn254::g1_read(a),
                be::be_val(factor) % bn254::group_order(),
            );
            if g1_fault(a) is Some {
                product == Err::<Seq<u8>, _>(g1_fault(a)->0)
            } else if zeros(a, 64) || reduced == 0 {
                product is Ok && product->Ok_0.len() == 64 && zeros(product->Ok_0, 64)
            } else {
                match bn254::g1_product(a, reduced) {
                    Some(c) => product == Ok::<_, PrecompileError>(c),
                    None => product is Ok && product->Ok_0.len() == 64 && zeros(
                        product->Ok_0,
                        64,
                    ),
                }
            }
        }),
{
    a_point_is_on_the_curve(a);
}

/// Points and results are told by their bytes, pair by pair.
pub proof fn points_are_told_by_their_bytes(
    point: Option<Vec<u8>>,
    read: Result<Option<Vec<u8>>, PrecompileError>,
    result: Result<Vec<u8>, PrecompileError>,
    pairs: Seq<(Vec<u8>, Vec<u8>)>,
    i: int,
)
    requires
        0 <= i < pairs.len(),
    ensures
        bn254::g1_view(point) is Some <==> point is Some,
        point matches Some(p) ==> bn254::g1_view(point)->0 == p@,
        read matches Ok(p) ==> bn254::read_view(read) == Ok::<_, PrecompileError>(
            bn254::g1_view(p),
        ),
        read matches Err(e) ==> bn254::read_view(read) == Err::<Option<Seq<u8>>, _>(e),
        result matches Ok(p) ==> bn254::bytes_view(result) == Ok::<_, PrecompileError>(p@),
        result matches Err(e) ==> bn254::bytes_view(result) == Err::<Seq<u8>, _>(e),
        bn254::pair_views(pairs).len() == pairs.len(),
        bn254::pair_views(pairs)[i] == (pairs[i].0@, pairs[i].1@),
{
}

/// A pair of points, by its bytes.
pub open spec fn pair_at(pairs: Seq<(&[u8], &[u8])>, i: int) -> (Seq<u8>, Seq<u8>) {
    (pairs[i].0@.subrange(0, 64), pairs[i].1@.subrange(0, 128))
}

/// Neither point of a pair is infinity.
pub open spec fn is_finite(pair: (Seq<u8>, Seq<u8>)) -> bool {
    !zeros(pair.0, 64) && !zeros(pair.1, 128)
}

/// Why a pair is none, or nothing. The fault of the first point counts first.
pub open spec fn pair_fault(pair: (Seq<u8>, Seq<u8>)) -> Option<PrecompileError> {
    match g1_fault(pair.0) {
        Some(error) => Some(error),
        None => g2_fault(pair.1),
    }
}

/// Enough bytes for every pair.
pub open spec fn long_enough(pairs: Seq<(&[u8], &[u8])>) -> bool {
    forall|i: int|
        0 <= i < pairs.len() ==> (#[trigger] pairs[i]).0@.len() >= 64 && pairs[i].1@.len() >= 128
}

/// What the first `n` pairs give.
proof fn lemma_pairs(pairs: Seq<(&[u8], &[u8])>, n: nat)
    requires
        long_enough(pairs),
        n <= pairs.len(),
    ensures
        ({
            let read = bn254::pairs_read(bn254::slices_view(pairs), n);
            match read {
                Ok(kept) => {
                    &&& forall|i: int|
                        0 <= i < n ==> pair_fault(#[trigger] pair_at(pairs, i)) is None
                    &&& kept == Seq::new(n, |i: int| pair_at(pairs, i)).filter(
                        |pair: (Seq<u8>, Seq<u8>)| is_finite(pair),
                    )
                },
                Err(error) => exists|i: int|
                    {
                        &&& 0 <= i < n
                        &&& pair_fault(#[trigger] pair_at(pairs, i)) == Some(error)
                        &&& forall|j: int|
                            0 <= j < i ==> pair_fault(#[trigger] pair_at(pairs, j)) is None
                    },
            }
        }),
    decreases n,
{
    reveal(Seq::filter);
    let finite = |pair: (Seq<u8>, Seq<u8>)| is_finite(pair);
    let all = Seq::new(n, |i: int| pair_at(pairs, i));
    if n > 0 {
        let m = (n - 1) as nat;
        lemma_pairs(pairs, m);
        assert(all.drop_last() =~= Seq::new(m, |i: int| pair_at(pairs, i)));
        assert(bn254::slices_view(pairs)[m as int] == (pairs[m as int].0@, pairs[m as int].1@));
        let pair = pair_at(pairs, m as int);
        assert(pairs[m as int].0@.len() >= 64);
        a_point_is_on_the_curve(pair.0);
        a_point_of_the_second_group_has_four_coordinates(pair.1);
        assert(all.last() == pair);
        let read = bn254::pairs_read(bn254::slices_view(pairs), n);
        let before = bn254::pairs_read(bn254::slices_view(pairs), m);
        if before is Ok && read is Err {
            assert(pair_fault(pair_at(pairs, m as int)) == Some(read->Err_0));
        }
    }
}

/// A pairing check fails with the fault of the first pair that has one. If no pair has one, the
/// pairs that are handed to the pairing are exactly those of the input of which neither point
/// is infinity, in their order.
pub proof fn a_pairing_is_of_all_finite_pairs(pairs: Seq<(&[u8], &[u8])>)
    requires
        long_enough(pairs),
    ensures
        ({
            let read = bn254::pairs_read(bn254::slices_view(pairs), pairs.len());
            let faultless = forall|i: int|
                0 <= i < pairs.len() ==> pair_fault(#[trigger] pair_at(pairs, i)) is None;
            &&& faultless ==> read == Ok::<_, PrecompileError>(
                Seq::new(pairs.len(), |i: int| pair_at(pairs, i)).filter(
                    |pair: (Seq<u8>, Seq<u8>)| is_finite(pair),
                ),
            )
            &&& !faultless ==> exists|i: int|
                {
                    &&& 0 <= i < pairs.len()
                    &&& #[trigger] pair_fault(pair_at(pairs, i)) is Some
                    &&& read == Err::<Seq<(Seq<u8>, Seq<u8>)>, _>(
                        pair_fault(pair_at(pairs, i))->0,
                    )
                    &&& forall|j: int|
                        0 <= j < i ==> pair_fault(#[trigger] pair_at(pairs, j)) is None
                }
        }),
{
    lemma_pairs(pairs, pairs.len());
}

/// Without a point at infinity every pair of a faultless input is handed to the pairing, each at
/// its place.
pub proof fn every_finite_pair_is_paired(pairs: Seq<(&[u8], &[u8])>)
    requires
        long_enough(pairs),
        forall|i: int|
            0 <= i < pairs.len() ==> pair_fault(#[trigger] pair_at(pairs, i)) is None
                && is_finite(pair_at(pairs, i)),
    ensures
        ({
            let read = bn254::pairs_read(bn254::slices_view(pairs), pairs.len());
            &&& read is Ok
            &&& read->Ok_0.len() == pairs.len()
            &&& forall|i: int|
                0 <= i < pairs.len() ==> #[trigger] read->Ok_0[i] == (
                    pairs[i].0@.subrange(0, 64),
                    pairs[i].1@.subrange(0, 128),
                )
        }),
{
    a_pairing_is_of_all_finite_pairs(pairs);
    let all = Seq::new(pairs.len(), |i: int| pair_at(pairs, i));
    let finite = |pair: (Seq<u8>, Seq<u8>)| is_finite(pair);
    assert forall|i: int| 0 <= i < all.len() implies finite(#[trigger] all[i]) by {
        assert(all[i] == pair_at(pairs, i));
    }
    lemma_filter_all(all, finite);
    assert(bn254::pairs_read(bn254::slices_view(pairs), pairs.len())->Ok_0 == all);
}

/// A filter that everything passes changes nothing.
proof fn lemma_filter_all(all: Seq<(Seq<u8>, Seq<u8>)>, keep: spec_fn((Seq<u8>, Seq<u8>)) -> bool)
    requires
        forall|i: int| 0 <= i < all.len() ==> keep(#[trigger] all[i]),
    ensures
        all.filter(keep) == all,
    decreases all.len(),
{
    reveal(Seq::filter);
    if all.len() > 0 {
        let rest = all.drop_last();
        assert forall|i: int| 0 <= i < rest.len() implies keep(#[trigger] rest[i]) by {
            assert(keep(all[i]));
        }
        lemma_filter_all(rest, keep);
        assert(keep(all[all.len() - 1]));
        assert(rest.push(all.last()) =~= all);
    }
}

} // verus!
