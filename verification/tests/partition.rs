use composite_cone::cones::coneset::ConeSet;
use composite_cone::cones::supported::SupportedCones;
use composite_cone::conicvector::ConicVector;

fn mixed() -> ConeSet {
    let types = [
        SupportedCones::NonnegativeConeT,
        SupportedCones::SecondOrderConeT,
        SupportedCones::ZeroConeT,
    ];
    ConeSet::new(&types, &[3, 4, 2])
}

#[test]
fn views_are_the_blocks_of_the_cones() {
    let cs = mixed();
    let s = ConicVector::new(vec![1.0, 1.0, 1.0, 1.0, 0.0, 0.0, 0.0, 0.0, 0.0], &cs).unwrap();
    let ds = ConicVector::new(vec![-2.0, 0.0, 0.0, 0.0, 0.0, 0.0, 0.0, 0.0, 0.0], &cs).unwrap();
    assert_eq!(s.len(), 3);
    assert_eq!(s.view(0), &[1.0, 1.0, 1.0]);
    assert_eq!(s.view(1), &[1.0, 0.0, 0.0, 0.0]);
    assert_eq!(s.view(2), &[0.0, 0.0]);
    assert_eq!(ds.view(0), &[-2.0, 0.0, 0.0]);
    assert_eq!(ds.view(1), &[0.0; 4]);
    assert_eq!(ds.view(2), &[0.0; 2]);
}

#[test]
fn binding_step_comes_from_the_nonnegative_block() {
    // Largest step along ds that keeps a block of s nonnegative, block by
    // block: only the first coordinate of the first block moves.
    let cs = mixed();
    let s = ConicVector::new(vec![1.0, 1.0, 1.0, 1.0, 0.0, 0.0, 0.0, 0.0, 0.0], &cs).unwrap();
    let ds = ConicVector::new(vec![-2.0, 0.0, 0.0, 0.0, 0.0, 0.0, 0.0, 0.0, 0.0], &cs).unwrap();
    let huge = 1.0 / f64::EPSILON;
    let mut moving = Vec::new();
    for i in 0..s.len() {
        if ds.view(i).iter().any(|d| *d != 0.0) {
            moving.push(i);
        }
    }
    assert_eq!(moving, vec![0]);
    let mut alpha = huge;
    for (x, d) in s.view(0).iter().zip(ds.view(0)) {
        if *d < 0.0 {
            alpha = f64::min(alpha, -x / d);
        }
    }
    assert_eq!(alpha, 0.5);
}

#[test]
fn new_rejects_a_buffer_of_the_wrong_length() {
    let cs = mixed();
    assert!(ConicVector::new(vec![0u8; 8], &cs).is_none());
    assert!(ConicVector::new(vec![0u8; 10], &cs).is_none());
    assert!(ConicVector::new(vec![0u8; 9], &cs).is_some());
}

#[test]
fn writing_a_block_leaves_the_others() {
    let cs = mixed();
    let mut x = ConicVector::new(vec![0i32; 9], &cs).unwrap();
    for v in x.view_mut(1).iter_mut() {
        *v = 7;
    }
    assert_eq!(x.as_slice(), &[0, 0, 0, 7, 7, 7, 7, 0, 0]);
    x.view_mut(2)[1] = -1;
    x.view_mut(0)[0] = 5;
    assert_eq!(x.into_vec(), vec![5, 0, 0, 7, 7, 7, 7, 0, -1]);
}

#[test]
fn flat_writes_show_in_the_views() {
    let cs = mixed();
    let mut x = ConicVector::new(vec![0u8; 9], &cs).unwrap();
    for (p, v) in x.as_mut_slice().iter_mut().enumerate() {
        *v = p as u8;
    }
    assert_eq!(x.view(0), &[0, 1, 2]);
    assert_eq!(x.view(1), &[3, 4, 5, 6]);
    assert_eq!(x.view(2), &[7, 8]);
}

#[test]
fn empty_blocks_have_empty_views() {
    let types = [
        SupportedCones::ZeroConeT,
        SupportedCones::NonnegativeConeT,
        SupportedCones::ZeroConeT,
    ];
    let cs = ConeSet::new(&types, &[0, 2, 0]);
    let x = ConicVector::new(vec![4u8, 5u8], &cs).unwrap();
    assert_eq!(x.len(), 3);
    assert!(x.view(0).is_empty());
    assert_eq!(x.view(1), &[4, 5]);
    assert!(x.view(2).is_empty());
}

#[test]
fn vector_over_no_cones() {
    let cs = ConeSet::new(&[], &[]);
    let x = ConicVector::new(Vec::<u8>::new(), &cs).unwrap();
    assert_eq!(x.len(), 0);
    assert!(x.as_slice().is_empty());
}
