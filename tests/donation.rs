use random_carnegie::city::{cities_of_card, City};
use random_carnegie::donation::{restrict, Cards, Donations};
use random_carnegie::visibility::Players;

fn blocked_cells(d: &Donations) -> Vec<(usize, usize)> {
    let mut r = Vec::new();
    for row in 0..5 {
        for col in 0..4 {
            if d.is_blocked(row, col) {
                r.push((row, col));
            }
        }
    }
    r
}

fn consumed_cities(d: &Donations) -> Vec<(City, usize)> {
    (0..28)
        .map(City::from_index)
        .map(|c| (c, d.consumed(c)))
        .filter(|(_, n)| *n > 0)
        .collect()
}

#[test]
fn identity_order_two_players() {
    let cards: Vec<u8> = (0..20).collect();
    let d = restrict(&cards, 18);
    assert_eq!(blocked_cells(&d), vec![(0, 0), (0, 1), (1, 0), (2, 0), (3, 0), (4, 0)]);
    assert_eq!(
        consumed_cities(&d),
        vec![
            (City::LosAngeles, 1),
            (City::Reno, 1),
            (City::SaltLakeCity, 1),
            (City::SanFrancisco, 1),
            (City::Chicago, 1),
            (City::Cincinnati, 1),
            (City::Duluth, 1),
            (City::StLouis, 1),
            (City::Boston, 1),
            (City::Washington, 1),
            (City::Houston, 1),
            (City::NewOrleans, 1),
        ]
    );
}

#[test]
fn identity_order_three_players() {
    let cards: Vec<u8> = (0..20).collect();
    let d = restrict(&cards, 9);
    assert_eq!(blocked_cells(&d), vec![(0, 0), (1, 0), (2, 0)]);
    assert_eq!(
        consumed_cities(&d),
        vec![
            (City::Reno, 1),
            (City::SaltLakeCity, 1),
            (City::Chicago, 1),
            (City::StLouis, 1),
            (City::Boston, 1),
            (City::Washington, 1),
        ]
    );
}

#[test]
fn no_budget_blocks_nothing() {
    let cards: Vec<u8> = (0..20).collect();
    let d = restrict(&cards, 0);
    assert!(blocked_cells(&d).is_empty());
    assert!(consumed_cities(&d).is_empty());
    let mut c = Cards::default();
    c.rand(11);
    let d = c.donations(Players::Four);
    assert!(blocked_cells(&d).is_empty());
    assert!(consumed_cities(&d).is_empty());
}

#[test]
fn full_city_and_blocked_cell_take_no_disk() {
    let d = restrict(&vec![0, 0, 10], 9);
    assert_eq!(blocked_cells(&d), vec![(0, 0), (0, 2)]);
    assert_eq!(
        consumed_cities(&d),
        vec![(City::Reno, 1), (City::SaltLakeCity, 1), (City::Fargo, 1), (City::StPaul, 1)]
    );
}

#[test]
fn large_city_fills_up() {
    let d = restrict(&vec![14, 6, 8, 11], 18);
    assert_eq!(d.consumed(City::NewYork), 4);
    assert_eq!(d.consumed(City::Pittsburgh), 2);
    assert_eq!(d.consumed(City::Chicago), 1);
    assert_eq!(blocked_cells(&d), vec![(1, 1), (1, 2), (3, 1), (4, 2)]);
}

#[test]
fn budget_and_capacity_hold_for_shuffled_cards() {
    for seed in [0u64, 1, 2, 3, 77, 12345678] {
        for p in [Players::Two, Players::Three] {
            let mut c = Cards::default();
            c.rand(seed);
            let d = c.donations(p);
            let cells = blocked_cells(&d).len();
            let cities: usize = consumed_cities(&d).iter().map(|(_, n)| *n).sum();
            assert!(cells + cities <= p.disks());
            for (city, n) in consumed_cities(&d) {
                assert!(n <= city.spaces());
            }
        }
    }
}

#[test]
fn city_spaces_and_regions() {
    assert_eq!(City::NewYork.spaces(), 5);
    assert_eq!(City::Denver.spaces(), 3);
    assert_eq!(City::Boise.spaces(), 1);
    assert_eq!(City::Boise.class(), "west");
    assert_eq!(City::StPaul.class(), "midwest");
    assert_eq!(City::Washington.class(), "east");
    assert_eq!(City::SanAntonio.class(), "south");
    let total: usize = (0..28).map(|i| City::from_index(i).spaces()).sum();
    assert_eq!(total, 4 * 5 + 10 * 3 + 14);
    for i in 0..28 {
        assert_eq!(City::from_index(i).index(), i);
    }
}

#[test]
fn card_table() {
    assert_eq!(cities_of_card(0), vec![City::SaltLakeCity, City::Reno]);
    assert_eq!(
        cities_of_card(14),
        vec![City::NewYork, City::Chicago, City::NewOrleans, City::SanFrancisco]
    );
    assert_eq!(cities_of_card(19), vec![City::KansasCity, City::Chicago]);
}

#[test]
fn city_names() {
    assert_eq!(City::LosAngeles.name(), "Los Angeles");
    assert_eq!(City::StLouis.name(), "St Louis");
    assert_eq!(City::Boise.name(), "Boise");
    assert_eq!(City::SanAntonio.name(), "San Antonio");
}
