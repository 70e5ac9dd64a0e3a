use radiance_cascades::stack::compute_cascades;

/// What a ray gathered within its interval, and what of the ray is left.
type Marched = (f32, f32);

fn march(level: u32, texel: usize) -> Marched {
    (0.5 * (level as f32 + 1.0) + texel as f32, 0.25)
}

fn finish(marched: Marched) -> f32 {
    marched.0
}

fn merge(marched: Marched, texel: usize, coarser: &Vec<f32>) -> f32 {
    marched.0 + marched.1 * coarser[texel]
}

#[test]
fn without_merging_a_cascade_is_its_own_march() {
    let cascades = compute_cascades(4, 3, false, march, finish, merge);
    assert_eq!(cascades.len(), 4);
    for level in 0..4u32 {
        assert_eq!(cascades[level as usize].len(), 3);
        for texel in 0..3 {
            assert_eq!(cascades[level as usize][texel], finish(march(level, texel)));
        }
    }
}

#[test]
fn without_merging_no_cascade_is_read() {
    let cascades = compute_cascades(3, 2, false, march, finish, |_: Marched, _: usize, _: &Vec<f32>| -> f32 {
        panic!("a cascade was read though merging is disabled")
    });
    assert_eq!(cascades, vec![vec![0.5, 1.5], vec![1.0, 2.0], vec![1.5, 2.5]]);
}

#[test]
fn with_merging_every_cascade_continues_into_the_next() {
    let cascades = compute_cascades(3, 2, true, march, finish, merge);
    // The coarsest cascade has nothing to continue into.
    assert_eq!(cascades[2], vec![1.5, 2.5]);
    assert_eq!(cascades[1], vec![1.0 + 0.25 * 1.5, 2.0 + 0.25 * 2.5]);
    assert_eq!(
        cascades[0],
        vec![0.5 + 0.25 * (1.0 + 0.25 * 1.5), 1.5 + 0.25 * (2.0 + 0.25 * 2.5)]
    );
}

#[test]
fn cascades_are_computed_from_the_coarsest_down() {
    let order = std::cell::RefCell::new(Vec::new());
    let cascades = compute_cascades(
        3,
        1,
        true,
        |level: u32, _: usize| {
            order.borrow_mut().push(level);
            level
        },
        |marched: u32| marched,
        |marched: u32, texel: usize, coarser: &Vec<u32>| 10 * coarser[texel] + marched,
    );
    assert_eq!(*order.borrow(), vec![2, 1, 0]);
    assert_eq!(cascades, vec![vec![210], vec![21], vec![2]]);
}

#[test]
fn a_single_cascade_and_no_cascade() {
    assert_eq!(compute_cascades(1, 2, true, march, finish, merge), vec![vec![0.5, 1.5]]);
    assert_eq!(compute_cascades(0, 2, true, march, finish, merge), Vec::<Vec<f32>>::new());
    assert_eq!(compute_cascades(2, 0, true, march, finish, merge), vec![Vec::<f32>::new(); 2]);
}
