use botracers::mesh::{kerb_indices, kerb_stripe_red, ribbon_indices};

#[test]
fn ribbon_closes_on_itself() {
    assert_eq!(
        ribbon_indices(3),
        vec![0, 2, 1, 1, 2, 3, 2, 4, 3, 3, 4, 5, 4, 0, 5, 5, 0, 1]
    );
    assert_eq!(ribbon_indices(1), vec![0, 0, 1, 1, 0, 1]);
    assert!(ribbon_indices(0).is_empty());
}

#[test]
fn ribbon_indices_name_existing_vertices() {
    let segments = 500;
    let indices = ribbon_indices(segments);
    assert_eq!(indices.len(), 6 * segments);
    assert!(indices.iter().all(|&i| (i as usize) < 2 * segments));
}

#[test]
fn kerb_quads_use_their_own_vertices() {
    assert_eq!(kerb_indices(2), vec![0, 2, 1, 1, 2, 3, 4, 6, 5, 5, 6, 7]);
    let indices = kerb_indices(300);
    assert_eq!(indices.len(), 1800);
    assert!(indices.iter().all(|&i| i < 1200));
    assert!(kerb_indices(0).is_empty());
}

#[test]
fn kerb_stripes_alternate_starting_red() {
    assert!(kerb_stripe_red(0));
    assert!(!kerb_stripe_red(1));
    assert!(kerb_stripe_red(2));
    assert!(!kerb_stripe_red(7));
}
