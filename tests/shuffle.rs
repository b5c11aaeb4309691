use random_carnegie::shuffle::seeded_shuffle;

#[test]
fn shuffle_keeps_the_values() {
    let mut v: Vec<u8> = (0..64u8).map(|i| i / 2 + 1).collect();
    let before = v.clone();
    seeded_shuffle(12, 0, &mut v);
    assert_ne!(v, before);
    let mut sorted = v.clone();
    sorted.sort();
    assert_eq!(sorted, before);
}

#[test]
fn shuffle_depends_on_values_not_order() {
    let mut a: Vec<u8> = (0..20u8).collect();
    let mut b: Vec<u8> = (0..20u8).rev().collect();
    seeded_shuffle(3, 0x4362256e, &mut a);
    seeded_shuffle(3, 0x4362256e, &mut b);
    assert_eq!(a, b);
}

#[test]
fn salt_separates_shuffles() {
    let mut a: Vec<u8> = (0..20u8).collect();
    let mut b: Vec<u8> = (0..20u8).collect();
    seeded_shuffle(3, 0, &mut a);
    seeded_shuffle(3, 0x4362256e, &mut b);
    assert_ne!(a, b);
    let mut c: Vec<u8> = (0..20u8).collect();
    seeded_shuffle(3 ^ 0x4362256e, 0, &mut c);
    assert_eq!(b, c);
}

#[test]
fn empty_shuffle() {
    let mut v: Vec<u8> = Vec::new();
    seeded_shuffle(9, 9, &mut v);
    assert!(v.is_empty());
}
