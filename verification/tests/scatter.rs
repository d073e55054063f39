use bezier_lines::scatter::{generate_random_points, pick_random, take_from_back, ControlPoint};
use rand::rngs::StdRng;
use rand::SeedableRng;

#[test]
fn as_many_points_as_asked_for() {
    let mut rng = StdRng::seed_from_u64(1);
    assert_eq!(generate_random_points(&mut rng, 5, 4000, 4000).len(), 5);
    assert_eq!(generate_random_points(&mut rng, 255, 10, 10).len(), 255);
    assert_eq!(generate_random_points(&mut rng, 1, 1, 1).len(), 1);
}

#[test]
fn no_points_need_no_canvas() {
    let mut rng = StdRng::seed_from_u64(2);
    assert_eq!(generate_random_points(&mut rng, 0, 0, 0), Vec::new());
    assert_eq!(generate_random_points(&mut rng, 0, 100, 100), Vec::new());
}

#[test]
fn points_lie_within_the_canvas() {
    let mut rng = StdRng::seed_from_u64(3);
    for point in generate_random_points(&mut rng, 255, 7, 3) {
        assert!(point.x < 7);
        assert!(point.y < 3);
    }
    for point in generate_random_points(&mut rng, 255, 1, 4000) {
        assert_eq!(point.x, 0);
        assert!(point.y < 4000);
    }
}

#[test]
fn points_on_a_single_pixel_are_the_origin() {
    let mut rng = StdRng::seed_from_u64(4);
    let points = generate_random_points(&mut rng, 20, 1, 1);
    assert_eq!(points, vec![ControlPoint { x: 0, y: 0 }; 20]);
}

#[test]
fn same_seed_gives_the_same_points() {
    let mut first = StdRng::seed_from_u64(99);
    let mut second = StdRng::seed_from_u64(99);
    assert_eq!(
        generate_random_points(&mut first, 50, 4000, 4000),
        generate_random_points(&mut second, 50, 4000, 4000)
    );
}

#[test]
fn points_are_spread_over_the_canvas() {
    let mut rng = StdRng::seed_from_u64(5);
    let points = generate_random_points(&mut rng, 200, 4000, 4000);
    let first = points[0];
    assert!(points.iter().any(|p| p.x != first.x));
    assert!(points.iter().any(|p| p.y != first.y));
}

#[test]
fn taking_from_the_back_reverses_the_tail() {
    assert_eq!(take_from_back(vec![1, 2, 3, 4, 5], 2), vec![5, 4]);
    assert_eq!(take_from_back(vec![1, 2, 3, 4, 5], 5), vec![5, 4, 3, 2, 1]);
}

#[test]
fn taking_more_than_there_is_takes_all() {
    assert_eq!(take_from_back(vec![1, 2, 3], 100), vec![3, 2, 1]);
    assert_eq!(take_from_back(vec!['a'], u32::MAX), vec!['a']);
}

#[test]
fn taking_nothing_gives_nothing() {
    assert_eq!(take_from_back(vec![1, 2, 3], 0), Vec::<i32>::new());
    assert_eq!(take_from_back(Vec::<i32>::new(), 3), Vec::<i32>::new());
}

#[test]
fn pick_is_no_longer_than_asked_for() {
    let mut rng = StdRng::seed_from_u64(6);
    let items: Vec<u32> = (0..500).collect();
    assert_eq!(pick_random(&mut rng, items.clone(), 100).len(), 100);
    assert_eq!(pick_random(&mut rng, items.clone(), 500).len(), 500);
    assert_eq!(pick_random(&mut rng, items.clone(), 501).len(), 500);
    assert_eq!(pick_random(&mut rng, items, 0).len(), 0);
    assert_eq!(pick_random(&mut rng, Vec::<u32>::new(), 10).len(), 0);
}

#[test]
fn pick_holds_items_of_the_input_once_each() {
    let mut rng = StdRng::seed_from_u64(7);
    let items: Vec<u32> = (0..500).collect();
    let mut picked = pick_random(&mut rng, items, 100);
    picked.sort();
    for pair in picked.windows(2) {
        assert!(pair[0] < pair[1]);
    }
    assert!(picked.iter().all(|item| *item < 500));
}

#[test]
fn pick_of_everything_is_a_rearrangement() {
    let mut rng = StdRng::seed_from_u64(8);
    let items = vec![3, 1, 4, 1, 5, 9, 2, 6, 5, 3, 5];
    let mut picked = pick_random(&mut rng, items.clone(), 11);
    let mut sorted = items;
    picked.sort();
    sorted.sort();
    assert_eq!(picked, sorted);
}

#[test]
fn pick_is_shuffled() {
    let mut rng = StdRng::seed_from_u64(9);
    let items: Vec<u32> = (0..500).collect();
    let picked = pick_random(&mut rng, items.clone(), 100);
    assert_ne!(picked, take_from_back(items, 100));
}
