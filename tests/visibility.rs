use random_carnegie::visibility::{visible, Players};

#[test]
fn index_seven() {
    assert!(!visible(7, Players::Three));
    assert!(!visible(7, Players::Four));
    assert!(visible(7, Players::All));
    assert!(!visible(7, Players::Two));
}

#[test]
fn bit_predicate_for_every_index() {
    for i in 0..32usize {
        assert_eq!(visible(i, Players::Two), (i & 1) != 1);
        assert_eq!(visible(i, Players::Three), (i & 3) != 3);
        assert_eq!(visible(i, Players::Four), (i & 7) != 7);
        assert!(visible(i, Players::All));
    }
}

#[test]
fn shown_counts_per_player_count() {
    let count = |p: Players| (0..32usize).filter(|i| visible(*i, p)).count();
    assert_eq!(count(Players::Two), 16);
    assert_eq!(count(Players::Three), 24);
    assert_eq!(count(Players::Four), 28);
    assert_eq!(count(Players::All), 32);
}

#[test]
fn thresholds_and_disks() {
    assert_eq!(Players::Two.threshold(), 1);
    assert_eq!(Players::Three.threshold(), 3);
    assert_eq!(Players::Four.threshold(), 7);
    assert_eq!(Players::All.threshold(), 32);
    assert_eq!(Players::Two.disks(), 18);
    assert_eq!(Players::Three.disks(), 9);
    assert_eq!(Players::Four.disks(), 0);
    assert_eq!(Players::All.disks(), 0);
}
