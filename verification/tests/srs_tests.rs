use pasta_srs::domain::Domain;
use pasta_srs::error::SrsError;
use pasta_srs::fp;
use pasta_srs::fp::{FpPoint, FpScalar};
use pasta_srs::handle::HandleTable;
use pasta_srs::srs::{PolyComm, Srs};

fn fp_scalars(values: &[u64]) -> Vec<FpScalar> {
    values.iter().map(|&v| fp::scalar_from_u64(v)).collect()
}

fn fp_points_equal(a: &[FpPoint], b: &[FpPoint]) -> bool {
    a.len() == b.len() && a.iter().zip(b.iter()).all(|(x, y)| fp::point_eq(x, y))
}

fn fp_comms_equal(a: &[PolyComm<FpPoint>], b: &[PolyComm<FpPoint>]) -> bool {
    a.len() == b.len() && a.iter().zip(b.iter()).all(|(x, y)| fp_points_equal(&x.elems, &y.elems))
}

#[test]
fn transport_round_trip() {
    let srs = fp::create(8).unwrap();
    let flat = srs.to_flat();
    assert_eq!(flat.len(), 9);
    let rebuilt: Srs<FpPoint> = Srs::from_flat(flat);
    assert!(fp::point_eq(&rebuilt.blinding(), &srs.blinding()));
    assert!(fp_points_equal(&rebuilt.to_flat(), &srs.to_flat()));
    assert_eq!(rebuilt.depth(), 8);
    assert!(!rebuilt.contains_basis(8));
}

#[test]
fn creation_is_deterministic() {
    let a = fp::create(6).unwrap();
    let b = fp::create(6).unwrap();
    assert!(fp_points_equal(&a.to_flat(), &b.to_flat()));
}

#[test]
fn parallel_creation_matches_sequential() {
    let seq = fp::create(6).unwrap();
    let par = fp::create_parallel(6).unwrap();
    assert!(fp_points_equal(&seq.to_flat(), &par.to_flat()));
}

#[test]
fn generators_are_distinct() {
    let srs = fp::create(4).unwrap();
    for i in 0..srs.g.len() {
        assert!(!fp::point_eq(&srs.h, &srs.g[i]));
        for j in 0..i {
            assert!(!fp::point_eq(&srs.g[i], &srs.g[j]));
        }
    }
}

#[test]
fn persistence_round_trip() {
    let srs = fp::create(8).unwrap();
    let bytes = fp::srs_to_bytes(&srs);
    let back = fp::srs_from_bytes(&bytes, 0).unwrap();
    assert!(fp_points_equal(&back.to_flat(), &srs.to_flat()));
    assert!(!back.contains_basis(8));
    let again = fp::srs_to_bytes(&back);
    assert_eq!(again, bytes);
}

#[test]
fn persistence_read_at_offset() {
    let first = fp::create(2).unwrap();
    let second = fp::create(5).unwrap();
    let mut stream = fp::srs_to_bytes(&first);
    let offset = stream.len();
    stream.extend(fp::srs_to_bytes(&second));
    let a = fp::srs_from_bytes(&stream, 0).unwrap();
    assert_eq!(a.depth(), 2);
    assert!(fp_points_equal(&a.to_flat(), &first.to_flat()));
    let b = fp::srs_from_bytes(&stream, offset).unwrap();
    assert_eq!(b.depth(), 5);
    assert!(fp_points_equal(&b.to_flat(), &second.to_flat()));
}

#[test]
fn corrupt_stream_is_a_codec_error() {
    assert!(matches!(fp::srs_from_bytes(&vec![1u8, 2, 3], 0), Err(SrsError::CodecError)));
    let srs = fp::create(2).unwrap();
    let bytes = fp::srs_to_bytes(&srs);
    let past_end = bytes.len() + 1;
    assert!(matches!(fp::srs_from_bytes(&bytes, past_end), Err(SrsError::CodecError)));
}

#[test]
fn domain_validation() {
    assert!(Domain::new(1).is_ok());
    assert!(Domain::new(8).is_ok());
    assert_eq!(Domain::new(0).unwrap_err(), SrsError::InvalidDomainSize);
    assert_eq!(Domain::new(3).unwrap_err(), SrsError::InvalidDomainSize);
    assert_eq!(Domain::new(6).unwrap_err(), SrsError::InvalidDomainSize);
    assert_eq!(Domain::new(12).unwrap_err(), SrsError::InvalidDomainSize);
    assert!(pasta_srs::domain::is_valid_domain_size(1 << 20));
    assert!(pasta_srs::domain::is_valid_domain_size((1u64 << 32) as usize));
    assert!(!pasta_srs::domain::is_valid_domain_size(((1u64 << 32) + 8) as usize));
}

#[test]
fn invalid_domain_size_is_rejected_everywhere() {
    let mut srs = fp::create(8).unwrap();
    assert!(matches!(
        fp::get_lagrange_basis_from_domain_size(&mut srs, 6),
        Err(SrsError::InvalidDomainSize)
    ));
    let evals = fp_scalars(&[1, 2, 3, 4, 5, 6]);
    assert!(matches!(
        fp::commit_evaluations(&srs, 6, &evals),
        Err(SrsError::InvalidDomainSize)
    ));
    let short = fp_scalars(&[1, 2, 3]);
    assert!(matches!(
        fp::commit_evaluations(&srs, 8, &short),
        Err(SrsError::InvalidDomainSize)
    ));
}

#[test]
fn cache_idempotence() {
    let mut srs = fp::create(16).unwrap();
    let d = Domain::new(8).unwrap();
    assert!(!srs.contains_basis(8));
    assert!(srs.maybe_lagrange_commitment(8, 0).is_none());
    let first = fp::get_lagrange_basis(&mut srs, d);
    assert!(srs.contains_basis(8));
    assert!(srs.maybe_lagrange_commitment(8, 0).is_some());
    let second = fp::get_lagrange_basis(&mut srs, d);
    assert!(fp_comms_equal(&first, &second));
}

#[test]
fn concrete_scenario_depth_16_domain_8() {
    let mut srs = fp::create(16).unwrap();
    let basis = fp::get_lagrange_basis_from_domain_size(&mut srs, 8).unwrap();
    assert_eq!(basis.len(), 8);
    let c = fp::lagrange_commitment(&mut srs, 8, 3).unwrap();
    assert!(fp_points_equal(&c.elems, &basis[3].elems));
}

#[test]
fn maybe_lagrange_commitment_never_computes() {
    let mut srs = fp::create(8).unwrap();
    assert!(srs.maybe_lagrange_commitment(4, 0).is_none());
    assert!(!srs.contains_basis(4));
    fp::add_lagrange_basis(&mut srs, 2);
    let c = srs.maybe_lagrange_commitment(4, 0).unwrap();
    let basis = fp::get_lagrange_basis_from_domain_size(&mut srs, 4).unwrap();
    assert!(fp_points_equal(&c.elems, &basis[0].elems));
    assert!(srs.maybe_lagrange_commitment(4, 4).is_none());
}

#[test]
fn set_lagrange_basis_first_writer_wins() {
    let mut srs = fp::create(4).unwrap();
    let p0 = srs.g[0];
    let p1 = srs.g[1];
    let installed = vec![PolyComm { elems: vec![p0] }, PolyComm { elems: vec![p1] }];
    srs.set_lagrange_basis(2, installed);
    let kept = fp::get_lagrange_basis_from_domain_size(&mut srs, 2).unwrap();
    assert_eq!(kept.len(), 2);
    assert!(fp_points_equal(&kept[0].elems, &[p0]));
    assert!(fp_points_equal(&kept[1].elems, &[p1]));
    let overwrite = vec![PolyComm { elems: vec![p1] }, PolyComm { elems: vec![p0] }];
    srs.set_lagrange_basis(2, overwrite);
    let c = srs.maybe_lagrange_commitment(2, 0).unwrap();
    assert!(fp_points_equal(&c.elems, &[p0]));
}

#[test]
fn evaluation_commitment_matches_lagrange_commitment() {
    let mut srs = fp::create(8).unwrap();
    let mut unit = vec![0u64; 8];
    unit[3] = 1;
    let evals = fp_scalars(&unit);
    let by_evals = fp::commit_evaluations(&srs, 8, &evals).unwrap();
    let by_basis = fp::lagrange_commitment(&mut srs, 8, 3).unwrap();
    assert!(fp_points_equal(&by_evals.elems, &by_basis.elems));
}

#[test]
fn commit_evaluations_distinguishes_inputs() {
    let srs = fp::create(8).unwrap();
    let a = fp::commit_evaluations(&srs, 4, &fp_scalars(&[1, 0, 0, 0])).unwrap();
    let b = fp::commit_evaluations(&srs, 4, &fp_scalars(&[2, 0, 0, 0])).unwrap();
    assert_eq!(a.elems.len(), 1);
    assert!(!fp_points_equal(&a.elems, &b.elems));
}

#[test]
fn constant_evaluations_interpolate_to_a_constant() {
    let srs = fp::create(8).unwrap();
    let by_evals = fp::commit_evaluations(&srs, 4, &fp_scalars(&[5, 5, 5, 5])).unwrap();
    let constant = fp::commit_non_hiding(&srs, &fp_scalars(&[5]), 1);
    assert!(fp_points_equal(&by_evals.elems, &constant.elems));
}

#[test]
fn commit_non_hiding_chunking() {
    let srs = fp::create(4).unwrap();
    let long = fp_scalars(&[1, 2, 3, 4, 5, 6, 7, 8]);
    let two_chunks = fp::commit_non_hiding(&srs, &long, 2);
    assert_eq!(two_chunks.elems.len(), 2);
    let short = fp_scalars(&[1, 2, 3]);
    let one_chunk = fp::commit_non_hiding(&srs, &short, 1);
    assert_eq!(one_chunk.elems.len(), 1);
    let padded = fp::commit_non_hiding(&srs, &fp_scalars(&[1, 2, 3, 0]), 1);
    assert!(fp_points_equal(&one_chunk.elems, &padded.elems));
}

#[test]
fn b_poly_commitment_shape_and_determinism() {
    let srs = fp::create(8).unwrap();
    let chals = fp_scalars(&[3, 5, 7]);
    let c1 = fp::b_poly_commitment(&srs, &chals);
    let c2 = fp::b_poly_commitment(&srs, &chals);
    assert_eq!(c1.elems.len(), 1);
    assert!(fp_points_equal(&c1.elems, &c2.elems));
    let other = fp::b_poly_commitment(&srs, &fp_scalars(&[3, 5, 8]));
    assert!(!fp_points_equal(&c1.elems, &other.elems));
}

#[test]
fn accumulator_generate_passes_check() {
    let srs = fp::create(16).unwrap();
    let chals = fp_scalars(&[2, 3, 5, 7, 11, 13, 17, 19]);
    let comms = fp::batch_accumulator_generate(&srs, 2, &chals);
    assert_eq!(comms.len(), 2);
    assert!(fp::batch_accumulator_check(&srs, &comms, &chals));
}

#[test]
fn accumulator_check_rejects_corruption() {
    let srs = fp::create(16).unwrap();
    let chals = fp_scalars(&[2, 3, 5, 7, 11, 13, 17, 19]);
    let comms = fp::batch_accumulator_generate(&srs, 2, &chals);
    let permuted = vec![comms[1], comms[0]];
    assert!(!fp::batch_accumulator_check(&srs, &permuted, &chals));
    let other_chals = fp_scalars(&[2, 3, 5, 7, 11, 13, 17, 23]);
    assert!(!fp::batch_accumulator_check(&srs, &comms, &other_chals));
    assert!(!fp::batch_accumulator_check(&srs, &comms[..1].to_vec(), &chals));
    assert!(!fp::batch_accumulator_check(&srs, &Vec::new(), &chals));
}

#[test]
fn handle_registry_consumes_exactly_once() {
    let mut srs = fp::create(8).unwrap();
    let mut table: HandleTable<FpPoint> = HandleTable::new();
    let id = fp::lagrange_commitments_whole_domain_export(&mut srs, &mut table, 8).unwrap();
    assert_eq!(id, 0);
    let basis = table.take_basis(id).unwrap();
    assert_eq!(basis.len(), 8);
    assert!(table.take_basis(id).is_none());
    assert!(table.take_basis(7).is_none());
    assert_eq!(
        fp::lagrange_commitments_whole_domain_export(&mut srs, &mut table, 6).unwrap_err(),
        SrsError::InvalidDomainSize
    );
}

#[test]
fn export_keeps_cache_warm() {
    let mut srs = fp::create(8).unwrap();
    let mut table: HandleTable<FpPoint> = HandleTable::new();
    let id = fp::lagrange_commitments_whole_domain_export(&mut srs, &mut table, 4).unwrap();
    let exported = table.take_basis(id).unwrap();
    let cached = srs.cached_basis(4).unwrap();
    assert!(fp_comms_equal(&exported, &cached));
}
