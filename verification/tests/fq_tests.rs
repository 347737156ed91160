use pasta_srs::domain::Domain;
use pasta_srs::error::SrsError;
use pasta_srs::fq;
use pasta_srs::fq::{FqPoint, FqScalar};
use pasta_srs::srs::{PolyComm, Srs};

fn fq_scalars(values: &[u64]) -> Vec<FqScalar> {
    values.iter().map(|&v| fq::scalar_from_u64(v)).collect()
}

fn fq_points_equal(a: &[FqPoint], b: &[FqPoint]) -> bool {
    a.len() == b.len() && a.iter().zip(b.iter()).all(|(x, y)| fq::point_eq(x, y))
}

fn fq_comms_equal(a: &[PolyComm<FqPoint>], b: &[PolyComm<FqPoint>]) -> bool {
    a.len() == b.len() && a.iter().zip(b.iter()).all(|(x, y)| fq_points_equal(&x.elems, &y.elems))
}

#[test]
fn fq_transport_round_trip() {
    let srs = fq::create(8).unwrap();
    let rebuilt: Srs<FqPoint> = Srs::from_flat(srs.to_flat());
    assert!(fq_points_equal(&rebuilt.to_flat(), &srs.to_flat()));
    assert!(!rebuilt.contains_basis(8));
}

#[test]
fn fq_parallel_creation_matches_sequential() {
    let seq = fq::create(6).unwrap();
    let par = fq::create_parallel(6).unwrap();
    assert!(fq_points_equal(&seq.to_flat(), &par.to_flat()));
}

#[test]
fn fq_persistence_round_trip() {
    let srs = fq::create(8).unwrap();
    let bytes = fq::srs_to_bytes(&srs);
    let back = fq::srs_from_bytes(&bytes, 0).unwrap();
    assert!(fq_points_equal(&back.to_flat(), &srs.to_flat()));
}

#[test]
fn fq_curves_differ_from_fp() {
    let fp_srs = pasta_srs::fp::create(2).unwrap();
    let fq_srs = fq::create(2).unwrap();
    let fp_bytes = pasta_srs::fp::srs_to_bytes(&fp_srs);
    let fq_bytes = fq::srs_to_bytes(&fq_srs);
    assert_ne!(fp_bytes, fq_bytes);
}

#[test]
fn fq_concrete_scenario_depth_16_domain_8() {
    let mut srs = fq::create(16).unwrap();
    let basis = fq::get_lagrange_basis_from_domain_size(&mut srs, 8).unwrap();
    assert_eq!(basis.len(), 8);
    let c = fq::lagrange_commitment(&mut srs, 8, 3).unwrap();
    assert!(fq_points_equal(&c.elems, &basis[3].elems));
}

#[test]
fn fq_cache_idempotence() {
    let mut srs = fq::create(16).unwrap();
    let d = Domain::new(8).unwrap();
    let first = fq::get_lagrange_basis(&mut srs, d);
    let second = fq::get_lagrange_basis(&mut srs, d);
    assert!(fq_comms_equal(&first, &second));
}

#[test]
fn fq_accumulator_round_trip() {
    let srs = fq::create(16).unwrap();
    let chals = fq_scalars(&[2, 3, 5, 7, 11, 13, 17, 19]);
    let comms = fq::batch_accumulator_generate(&srs, 2, &chals);
    assert!(fq::batch_accumulator_check(&srs, &comms, &chals));
    let permuted = vec![comms[1], comms[0]];
    assert!(!fq::batch_accumulator_check(&srs, &permuted, &chals));
}

#[test]
fn fq_domain_validation() {
    let mut srs = fq::create(8).unwrap();
    assert!(matches!(
        fq::get_lagrange_basis_from_domain_size(&mut srs, 5),
        Err(SrsError::InvalidDomainSize)
    ));
    let evals = fq_scalars(&[1, 2, 3]);
    assert!(matches!(fq::commit_evaluations(&srs, 3, &evals), Err(SrsError::InvalidDomainSize)));
}
