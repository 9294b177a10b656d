use borrow_guard::region::Region;

#[test]
fn new_keeps_start_and_len() {
    let r = Region::new(7, 3);
    assert_eq!(r.start, 7);
    assert_eq!(r.len, 3);
}

#[test]
fn adjacent_regions_do_not_overlap() {
    let a = Region::new(0, 10);
    let b = Region::new(10, 10);
    assert!(!a.overlaps(b));
    assert!(!b.overlaps(a));
}

#[test]
fn edge_and_contained_overlaps() {
    let a = Region::new(0, 10);
    assert!(a.overlaps(Region::new(9, 10)));
    assert!(Region::new(9, 10).overlaps(a));
    assert!(a.overlaps(Region::new(2, 5)));
    assert!(Region::new(2, 5).overlaps(a));
}

#[test]
fn overlap_is_symmetric_on_samples() {
    let samples = [
        Region::new(0, 0),
        Region::new(0, 1),
        Region::new(3, 4),
        Region::new(6, 2),
        Region::new(7, 0),
        Region::new(0, 100),
        Region::new(u32::MAX, 1),
        Region::new(u32::MAX, u32::MAX),
    ];
    for a in samples.iter() {
        for b in samples.iter() {
            assert_eq!(a.overlaps(*b), b.overlaps(*a));
        }
    }
}

#[test]
fn nonempty_region_overlaps_itself() {
    for r in [Region::new(0, 1), Region::new(10, 10), Region::new(u32::MAX, u32::MAX)] {
        assert!(r.overlaps(r));
    }
}

#[test]
fn empty_region_overlaps_nothing() {
    let e = Region::new(5, 0);
    assert!(!e.overlaps(e));
    assert!(!e.overlaps(Region::new(5, 0)));
    assert!(!e.overlaps(Region::new(0, 10)));
    assert!(!Region::new(0, 10).overlaps(e));
    assert!(!e.overlaps(Region::new(5, 1)));
}
