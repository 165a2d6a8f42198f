use liquidity_pool::mia::DiceThrow;

#[test]
fn dice_are_reduced_to_faces() {
    let t = DiceThrow::new(13, 5).reduce();
    assert_eq!((t.d1, t.d2), (1, 5));
    let t = DiceThrow::new(6, 255).reduce();
    assert_eq!((t.d1, t.d2), (0, 3));
}

#[test]
fn throw_kinds() {
    assert!(DiceThrow::new(0, 1).is_mia());
    assert!(DiceThrow::new(1, 0).is_mia());
    assert!(!DiceThrow::new(1, 1).is_mia());
    assert!(DiceThrow::new(2, 0).is_little_mia());
    assert!(DiceThrow::new(4, 4).is_pair());
    assert!(!DiceThrow::new(4, 3).is_pair());
}

#[test]
fn throw_scores() {
    assert_eq!(DiceThrow::new(0, 1).get_throw_score(), 129);
    assert_eq!(DiceThrow::new(2, 0).get_throw_score(), 66);
    assert_eq!(DiceThrow::new(5, 5).get_throw_score(), 48);
    assert_eq!(DiceThrow::new(0, 0).get_throw_score(), 32);
    assert_eq!(DiceThrow::new(5, 4).get_throw_score(), 24);
    assert_eq!(DiceThrow::new(2, 1).get_throw_score(), 3);
}

#[test]
fn throws_rank_from_mia_down() {
    let order = [
        DiceThrow::new(0, 1),
        DiceThrow::new(0, 2),
        DiceThrow::new(5, 5),
        DiceThrow::new(0, 0),
        DiceThrow::new(5, 4),
        DiceThrow::new(2, 1),
    ];
    for i in 0..order.len() - 1 {
        assert!(order[i].better_than_or_equal(order[i + 1]));
        assert!(!order[i + 1].better_than_or_equal(order[i]));
    }
    assert!(DiceThrow::new(3, 4).better_than_or_equal(DiceThrow::new(4, 3)));
}
