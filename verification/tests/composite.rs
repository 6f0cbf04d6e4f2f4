use composite_cone::cones::coneset::{ConeSet, _coneset_make_headidx};
use composite_cone::cones::supported::{cone_dict, packed_triangle_len, SupportedCones};

fn mixed() -> ConeSet {
    let types = [
        SupportedCones::NonnegativeConeT,
        SupportedCones::SecondOrderConeT,
        SupportedCones::ZeroConeT,
    ];
    ConeSet::new(&types, &[3, 4, 2])
}

#[test]
fn mixed_composite_has_nine_elements() {
    let cs = mixed();
    assert_eq!(cs.len(), 3);
    assert_eq!(cs.numel(), 9);
}

#[test]
fn mixed_composite_offsets() {
    let cs = mixed();
    let heads: Vec<usize> = (0..cs.len()).map(|i| cs.head_index(i)).collect();
    assert_eq!(heads, vec![0, 3, 7]);
}

#[test]
fn mixed_composite_ranges_tile_the_vector() {
    let cs = mixed();
    assert_eq!(cs.range(0), 0..3);
    assert_eq!(cs.range(1), 3..7);
    assert_eq!(cs.range(2), 7..9);
    let mut covered = vec![0usize; cs.numel()];
    for i in 0..cs.len() {
        for p in cs.range(i) {
            covered[p] += 1;
        }
    }
    assert_eq!(covered, vec![1; 9]);
}

#[test]
fn mixed_composite_degree() {
    // nonnegative: 3, second-order: 1, zero: 0
    assert_eq!(mixed().degree(), 4);
}

#[test]
fn mixed_composite_type_counts() {
    let cs = mixed();
    assert_eq!(cs.type_count(SupportedCones::NonnegativeConeT), 1);
    assert_eq!(cs.type_count(SupportedCones::SecondOrderConeT), 1);
    assert_eq!(cs.type_count(SupportedCones::ZeroConeT), 1);
    assert_eq!(cs.type_count(SupportedCones::ExponentialConeT), 0);
    assert_eq!(cs.type_count(SupportedCones::PowerConeT), 0);
    assert_eq!(cs.type_count(SupportedCones::PSDTriangleConeT), 0);
}

#[test]
fn repeated_kinds_are_counted() {
    let types = [
        SupportedCones::SecondOrderConeT,
        SupportedCones::NonnegativeConeT,
        SupportedCones::SecondOrderConeT,
        SupportedCones::SecondOrderConeT,
    ];
    let cs = ConeSet::new(&types, &[2, 5, 3, 4]);
    assert_eq!(cs.type_count(SupportedCones::SecondOrderConeT), 3);
    assert_eq!(cs.type_count(SupportedCones::NonnegativeConeT), 1);
    assert_eq!(cs.numel(), 14);
    assert_eq!(cs.degree(), 8);
    assert_eq!(cs.head_index(3), 10);
}

#[test]
fn cones_keep_kind_and_dimension() {
    let cs = mixed();
    assert_eq!(cs.cone(1).kind(), SupportedCones::SecondOrderConeT);
    assert_eq!(cs.cone(1).dim(), 4);
    assert_eq!(cs.cone(1).numel(), 4);
    assert_eq!(cs.cone(2).kind(), SupportedCones::ZeroConeT);
    assert_eq!(cs.cone(2).dim(), 2);
}

#[test]
fn power_and_exponential_cones_take_three_coordinates_each() {
    let types = [SupportedCones::PowerConeT, SupportedCones::ExponentialConeT];
    let cs = ConeSet::new(&types, &[3, 3]);
    assert_eq!(cs.numel(), 6);
    assert_eq!(cs.degree(), 6);
    assert_eq!(cs.head_index(0), 0);
    assert_eq!(cs.head_index(1), 3);
    assert_eq!(cs.range(1), 3..6);
}

#[test]
fn semidefinite_block_is_stored_as_packed_triangle() {
    let types = [SupportedCones::PSDTriangleConeT, SupportedCones::NonnegativeConeT];
    let cs = ConeSet::new(&types, &[4, 2]);
    assert_eq!(cs.numel(), 12);
    assert_eq!(cs.head_index(1), 10);
    assert_eq!(cs.degree(), 6);
}

#[test]
fn empty_composite() {
    let cs = ConeSet::new(&[], &[]);
    assert_eq!(cs.len(), 0);
    assert_eq!(cs.numel(), 0);
    assert_eq!(cs.degree(), 0);
}

#[test]
fn order_of_cones_moves_offsets_but_not_totals() {
    let a = ConeSet::new(
        &[SupportedCones::NonnegativeConeT, SupportedCones::SecondOrderConeT],
        &[3, 4],
    );
    let b = ConeSet::new(
        &[SupportedCones::SecondOrderConeT, SupportedCones::NonnegativeConeT],
        &[4, 3],
    );
    assert_eq!(a.numel(), b.numel());
    assert_eq!(a.degree(), b.degree());
    assert_eq!(a.head_index(1), 3);
    assert_eq!(b.head_index(1), 4);
}

#[test]
fn try_new_accepts_what_new_accepts() {
    let types = [SupportedCones::NonnegativeConeT, SupportedCones::ZeroConeT];
    let cs = ConeSet::try_new(&types, &[3, 2]);
    assert!(cs.is_some());
    let cs = cs.unwrap();
    assert_eq!(cs.numel(), 5);
    assert_eq!(cs.head_index(1), 3);
}

#[test]
fn try_new_rejects_mismatched_lengths() {
    let types = [SupportedCones::NonnegativeConeT, SupportedCones::ZeroConeT];
    assert!(ConeSet::try_new(&types, &[3]).is_none());
    assert!(ConeSet::try_new(&types, &[3, 2, 1]).is_none());
}

#[test]
fn try_new_rejects_totals_that_do_not_fit() {
    let types = [SupportedCones::NonnegativeConeT, SupportedCones::NonnegativeConeT];
    assert!(ConeSet::try_new(&types, &[usize::MAX, 1]).is_none());
    let psd = [SupportedCones::PSDTriangleConeT];
    assert!(ConeSet::try_new(&psd, &[usize::MAX]).is_none());
    let zero = [SupportedCones::ZeroConeT];
    assert!(ConeSet::try_new(&zero, &[usize::MAX]).is_some());
}

#[test]
fn make_headidx_starts_at_zero() {
    let cones = [
        cone_dict(SupportedCones::NonnegativeConeT, 3).unwrap(),
        cone_dict(SupportedCones::SecondOrderConeT, 4).unwrap(),
        cone_dict(SupportedCones::ZeroConeT, 2).unwrap(),
    ];
    let mut headidx = vec![99usize; 3];
    _coneset_make_headidx(&mut headidx, &cones);
    assert_eq!(headidx, vec![0, 3, 7]);
}

#[test]
fn make_headidx_fills_the_second_entry() {
    let cones = [
        cone_dict(SupportedCones::SecondOrderConeT, 5).unwrap(),
        cone_dict(SupportedCones::ZeroConeT, 1).unwrap(),
    ];
    let mut headidx = vec![42usize; 2];
    _coneset_make_headidx(&mut headidx, &cones);
    assert_eq!(headidx, vec![0, 5]);
}

#[test]
fn make_headidx_on_no_cones() {
    let mut headidx: Vec<usize> = Vec::new();
    _coneset_make_headidx(&mut headidx, &[]);
    assert!(headidx.is_empty());
}

#[test]
fn element_counts_by_kind() {
    assert_eq!(SupportedCones::ZeroConeT.numel(7), Some(7));
    assert_eq!(SupportedCones::NonnegativeConeT.numel(7), Some(7));
    assert_eq!(SupportedCones::SecondOrderConeT.numel(7), Some(7));
    assert_eq!(SupportedCones::ExponentialConeT.numel(7), Some(3));
    assert_eq!(SupportedCones::PowerConeT.numel(7), Some(3));
    assert_eq!(SupportedCones::PSDTriangleConeT.numel(7), Some(28));
}

#[test]
fn degrees_by_kind() {
    assert_eq!(SupportedCones::ZeroConeT.degree(7), 0);
    assert_eq!(SupportedCones::NonnegativeConeT.degree(7), 7);
    assert_eq!(SupportedCones::SecondOrderConeT.degree(7), 1);
    assert_eq!(SupportedCones::ExponentialConeT.degree(7), 3);
    assert_eq!(SupportedCones::PowerConeT.degree(7), 3);
    assert_eq!(SupportedCones::PSDTriangleConeT.degree(7), 7);
}

#[test]
fn kind_keys_follow_declaration_order() {
    assert_eq!(SupportedCones::ZeroConeT.key(), 0);
    assert_eq!(SupportedCones::NonnegativeConeT.key(), 1);
    assert_eq!(SupportedCones::SecondOrderConeT.key(), 2);
    assert_eq!(SupportedCones::ExponentialConeT.key(), 3);
    assert_eq!(SupportedCones::PowerConeT.key(), 4);
    assert_eq!(SupportedCones::PSDTriangleConeT.key(), 5);
}

#[test]
fn packed_triangle_lengths() {
    assert_eq!(packed_triangle_len(0), Some(0));
    assert_eq!(packed_triangle_len(1), Some(1));
    assert_eq!(packed_triangle_len(2), Some(3));
    assert_eq!(packed_triangle_len(3), Some(6));
    assert_eq!(packed_triangle_len(4), Some(10));
    assert_eq!(packed_triangle_len(usize::MAX), None);
}

#[test]
fn packed_triangle_length_at_the_limit() {
    // the largest side whose triangle still fits in 64 bits
    if usize::BITS == 64 {
        let n: usize = 6074000999;
        assert_eq!(packed_triangle_len(n), Some(18446744070963499500));
        assert_eq!(packed_triangle_len(n + 1), None);
    }
}

#[test]
fn cone_dict_rejects_a_cone_that_does_not_fit() {
    assert!(cone_dict(SupportedCones::PSDTriangleConeT, usize::MAX).is_none());
    let cone = cone_dict(SupportedCones::PSDTriangleConeT, 3).unwrap();
    assert_eq!(cone.numel(), 6);
    assert_eq!(cone.degree(), 3);
    assert_eq!(cone.dim(), 3);
}

#[test]
fn rectification_changes_when_any_cone_changed() {
    let cs = mixed();
    assert!(!cs.rectify_equilibration(&[false, false, false]));
    assert!(cs.rectify_equilibration(&[false, true, false]));
    assert!(cs.rectify_equilibration(&[true, true, true]));
    assert!(cs.rectify_equilibration(&[false, false, true]));
}

#[test]
fn rectification_of_no_cones_changes_nothing() {
    let cs = ConeSet::new(&[], &[]);
    assert!(!cs.rectify_equilibration(&[]));
}

#[test]
fn reordered_cones_have_the_same_totals_and_counts() {
    let kinds = [
        SupportedCones::PSDTriangleConeT,
        SupportedCones::SecondOrderConeT,
        SupportedCones::NonnegativeConeT,
        SupportedCones::SecondOrderConeT,
        SupportedCones::ExponentialConeT,
    ];
    let dims = [3usize, 4, 2, 5, 3];
    let order = [3usize, 0, 4, 2, 1];
    let kinds2: Vec<SupportedCones> = order.iter().map(|&i| kinds[i]).collect();
    let dims2: Vec<usize> = order.iter().map(|&i| dims[i]).collect();
    let a = ConeSet::new(&kinds, &dims);
    let b = ConeSet::new(&kinds2, &dims2);
    assert_eq!(a.numel(), 20);
    assert_eq!(b.numel(), 20);
    assert_eq!(a.degree(), 10);
    assert_eq!(b.degree(), 10);
    for kind in kinds {
        assert_eq!(a.type_count(kind), b.type_count(kind));
    }
    assert_eq!(a.rectify_equilibration(&[false, true, false, true, false]), true);
    assert_eq!(b.rectify_equilibration(&[true, false, false, false, true]), true);
}

#[test]
fn iteration_visits_the_cones_in_order() {
    let cs = mixed();
    let seen: Vec<(SupportedCones, usize, usize)> =
        cs.iter().map(|c| (c.kind(), c.dim(), c.numel())).collect();
    assert_eq!(
        seen,
        vec![
            (SupportedCones::NonnegativeConeT, 3, 3),
            (SupportedCones::SecondOrderConeT, 4, 4),
            (SupportedCones::ZeroConeT, 2, 2),
        ]
    );
}

#[test]
fn offsets_accumulate_element_counts() {
    let kinds = [
        SupportedCones::PSDTriangleConeT,
        SupportedCones::PowerConeT,
        SupportedCones::ZeroConeT,
        SupportedCones::SecondOrderConeT,
    ];
    let cs = ConeSet::new(&kinds, &[2, 3, 0, 6]);
    assert_eq!(cs.head_index(0), 0);
    for i in 1..cs.len() {
        assert_eq!(cs.head_index(i), cs.head_index(i - 1) + cs.cone(i - 1).numel());
        assert_eq!(cs.range(i - 1).end, cs.range(i).start);
    }
    assert_eq!(cs.range(cs.len() - 1).end, cs.numel());
    assert_eq!(cs.numel(), 12);
}
