use random_carnegie::building::{Building, LimitTypes, Permanent, PlacementOptions, Tiles};
use random_carnegie::layout::{place, Buildings, Layout};
use random_carnegie::setup::generate;
use random_carnegie::visibility::Players;

fn opts(tiles: Tiles, limit: LimitTypes, permanent: Permanent) -> PlacementOptions {
    PlacementOptions { tiles, limit, permanent }
}

fn row_stats(l: &Layout, row: usize) -> (usize, usize, usize) {
    let values = l.row_values(row);
    let copies: usize = values.iter().map(|v| l.copies_of(*v)).sum();
    let blue = values.iter().filter(|v| Building::new(**v).blue()).count();
    (copies, values.len(), blue)
}

#[test]
fn building_rows() {
    assert_eq!(Building::new(1).row(), 0);
    assert_eq!(Building::new(4).row(), 0);
    assert_eq!(Building::new(5).row(), 1);
    assert_eq!(Building::new(16).row(), 3);
    assert_eq!(Building::new(17).row(), 0);
    assert_eq!(Building::new(21).row(), 1);
    assert_eq!(Building::new(32).row(), 3);
}

#[test]
fn building_blue() {
    let blue: Vec<u8> = (1..=32u8).filter(|v| Building::new(*v).blue()).collect();
    assert_eq!(blue, vec![4, 8, 12, 16, 19, 23, 27, 31]);
}

#[test]
fn building_tiles() {
    assert!(Building::new(16).is_tile(Tiles::Base));
    assert!(!Building::new(17).is_tile(Tiles::Base));
    assert!(Building::new(17).is_tile(Tiles::Expansion));
    assert!(!Building::new(16).is_tile(Tiles::Expansion));
    assert!(Building::new(1).is_tile(Tiles::Both));
    assert_eq!(Building::new(9).value(), 9);
}

#[test]
fn option_values() {
    assert_eq!(LimitTypes::Four.count(), 4);
    assert_eq!(LimitTypes::Five.count(), 5);
    assert_eq!(LimitTypes::Six.count(), 6);
    assert_eq!(LimitTypes::All.count(), 8);
    let bounds: Vec<(usize, usize)> = [
        Permanent::Zero,
        Permanent::ZeroPlus,
        Permanent::One,
        Permanent::OnePlus,
        Permanent::Two,
    ]
    .iter()
    .map(|p| (p.min(), p.max()))
    .collect();
    assert_eq!(bounds, vec![(0, 0), (0, 2), (1, 1), (1, 2), (2, 2)]);
}

#[test]
fn repeated_copies_get_consecutive_indices() {
    let l = place(&vec![1, 1, 1], opts(Tiles::Base, LimitTypes::All, Permanent::Zero));
    assert_eq!(l.insertion_indices(1), vec![0, 1, 2]);
    assert_eq!(l.placed(), 3);
}

#[test]
fn row_capacity_is_eight() {
    let l = place(&vec![1; 9], opts(Tiles::Base, LimitTypes::All, Permanent::Zero));
    assert_eq!(l.copies_of(1), 8);
    assert_eq!(l.placed(), 8);
}

#[test]
fn distinct_limit_stops_new_values() {
    let l = place(&vec![1, 2, 3, 17, 18], opts(Tiles::Both, LimitTypes::Four, Permanent::Zero));
    assert_eq!(l.row_values(0), vec![1, 2, 3, 17]);
    assert_eq!(l.copies_of(18), 0);
}

#[test]
fn permanent_maximum_rejects_blue() {
    let l = place(&vec![4, 1], opts(Tiles::Base, LimitTypes::All, Permanent::Zero));
    assert_eq!(l.row_values(0), vec![1]);
    assert_eq!(l.insertion_indices(1), vec![0]);
}

#[test]
fn room_is_reserved_for_permanent_minimum() {
    let l = place(&vec![1, 2, 3, 17, 4], opts(Tiles::Both, LimitTypes::Four, Permanent::One));
    assert_eq!(l.row_values(0), vec![1, 2, 3, 4]);
    assert_eq!(l.insertion_indices(4), vec![3]);
}

#[test]
fn tile_filter_drops_other_set() {
    let l = place(&vec![17, 1, 20, 2], opts(Tiles::Base, LimitTypes::All, Permanent::Zero));
    assert_eq!(l.row_values(0), vec![1, 2]);
    let l = place(&vec![17, 1, 20, 2], opts(Tiles::Expansion, LimitTypes::All, Permanent::Zero));
    assert_eq!(l.row_values(0), vec![17, 20]);
}

#[test]
fn visible_copies_follow_insertion_index() {
    let l = place(&vec![1, 1], opts(Tiles::Base, LimitTypes::All, Permanent::Zero));
    assert_eq!(l.visible_copies(1, Players::Two), 1);
    assert_eq!(l.visible_copies(1, Players::Three), 2);
    assert_eq!(l.visible_copies(1, Players::All), 2);
    assert_eq!(l.visible_copies(2, Players::All), 0);
}

#[test]
fn seed_zero_base_one_permanent() {
    let o = opts(Tiles::Base, LimitTypes::Four, Permanent::One);
    let s = generate(0, o, Players::All);
    let (copies, _, blue) = row_stats(&s.layout, 0);
    assert_eq!(blue, 1);
    assert!(copies <= 8);
    for row in 0..4 {
        let (copies, types, _) = row_stats(&s.layout, row);
        assert!(copies <= 8);
        assert!(types <= 4);
    }
    assert!(s.layout.placed() <= 32);
}

#[test]
fn every_option_combination_keeps_row_limits() {
    let tiles = [Tiles::Base, Tiles::Both, Tiles::Expansion];
    let limits = [LimitTypes::Four, LimitTypes::Five, LimitTypes::Six, LimitTypes::All];
    let perms = [
        Permanent::Zero,
        Permanent::ZeroPlus,
        Permanent::One,
        Permanent::OnePlus,
        Permanent::Two,
    ];
    for seed in [0u64, 1, 12345678, 99999999] {
        for t in tiles {
            for lim in limits {
                for p in perms {
                    let s = generate(seed, opts(t, lim, p), Players::All);
                    assert!(s.layout.placed() <= 32);
                    for row in 0..4 {
                        let (copies, types, blue) = row_stats(&s.layout, row);
                        assert!(copies <= 8);
                        assert!(types <= lim.count());
                        assert!(blue <= p.max());
                    }
                }
            }
        }
    }
}

#[test]
fn same_seed_same_setup() {
    let o = opts(Tiles::Both, LimitTypes::Five, Permanent::OnePlus);
    let a = generate(4242, o, Players::Two);
    let b = generate(4242, o, Players::Two);
    for v in 1..=32u8 {
        assert_eq!(a.layout.insertion_indices(v), b.layout.insertion_indices(v));
    }
    for row in 0..5 {
        for col in 0..4 {
            assert_eq!(a.donations.is_blocked(row, col), b.donations.is_blocked(row, col));
        }
    }
}

#[test]
fn default_text_lists_first_half() {
    let b = Buildings::default();
    let expected: Vec<String> = (1..=16u8)
        .flat_map(|v| [format!("{:02}", v), format!("{:02}", v)])
        .collect();
    assert_eq!(b.to_text(), expected.join(","));
}

#[test]
fn shuffled_text_is_sorted_and_padded() {
    let mut b = Buildings::default();
    b.rand(7);
    let t = b.to_text();
    let parts: Vec<&str> = t.split(',').collect();
    assert_eq!(parts.len(), 32);
    assert!(parts.iter().all(|p| p.len() == 2));
    let values: Vec<u8> = parts.iter().map(|p| p.parse().unwrap()).collect();
    let mut sorted = values.clone();
    sorted.sort();
    assert_eq!(values, sorted);
    assert_ne!(t, Buildings::default().to_text());
}

#[test]
fn shuffle_ignores_previous_order() {
    let mut a = Buildings::default();
    a.rand(5);
    let mut b = Buildings::default();
    b.rand(1);
    b.rand(5);
    assert_eq!(a.to_text(), b.to_text());
    let o = opts(Tiles::Both, LimitTypes::All, Permanent::ZeroPlus);
    let la = a.layout(o);
    let lb = b.layout(o);
    for v in 1..=32u8 {
        assert_eq!(la.insertion_indices(v), lb.insertion_indices(v));
    }
}
