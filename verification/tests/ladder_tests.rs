use exchange_feed::ladder::{PriceLadder, PriceLevel};

fn levels(ladder: &PriceLadder) -> Vec<(u64, u64)> {
    let mut out = Vec::new();
    for i in 0..ladder.len() {
        let level = ladder.level(i);
        out.push((level.price, level.size));
    }
    out
}

#[test]
fn new_ladder_is_empty() {
    let ladder = PriceLadder::new();
    assert_eq!(ladder.len(), 0);
    assert_eq!(ladder.lowest(), None);
    assert_eq!(ladder.highest(), None);
    assert_eq!(ladder.size_at(5), None);
    assert_eq!(ladder.position(5), 0);
}

#[test]
fn levels_are_kept_in_ascending_order() {
    let mut ladder = PriceLadder::new();
    ladder.set(30, 3);
    ladder.set(10, 1);
    ladder.set(20, 2);
    ladder.set(40, 4);
    assert_eq!(levels(&ladder), vec![(10, 1), (20, 2), (30, 3), (40, 4)]);
    assert_eq!(ladder.lowest(), Some(PriceLevel { price: 10, size: 1 }));
    assert_eq!(ladder.highest(), Some(PriceLevel { price: 40, size: 4 }));
}

#[test]
fn position_counts_the_levels_below() {
    let mut ladder = PriceLadder::new();
    ladder.set(10, 1);
    ladder.set(20, 2);
    ladder.set(30, 3);
    assert_eq!(ladder.position(5), 0);
    assert_eq!(ladder.position(10), 0);
    assert_eq!(ladder.position(11), 1);
    assert_eq!(ladder.position(30), 2);
    assert_eq!(ladder.position(31), 3);
}

#[test]
fn setting_a_level_overwrites_its_size() {
    let mut ladder = PriceLadder::new();
    ladder.set(10, 1);
    ladder.set(10, 7);
    assert_eq!(levels(&ladder), vec![(10, 7)]);
    assert_eq!(ladder.size_at(10), Some(7));
}

#[test]
fn size_zero_removes_a_level() {
    let mut ladder = PriceLadder::new();
    ladder.set(10, 1);
    ladder.set(20, 2);
    ladder.set(10, 0);
    assert_eq!(levels(&ladder), vec![(20, 2)]);
    assert_eq!(ladder.size_at(10), None);
    ladder.set(15, 0);
    assert_eq!(levels(&ladder), vec![(20, 2)]);
}

#[test]
fn a_removed_level_can_be_set_again() {
    let mut ladder = PriceLadder::new();
    ladder.set(10, 5);
    ladder.set(10, 0);
    ladder.set(10, 2);
    assert_eq!(levels(&ladder), vec![(10, 2)]);
}

#[test]
fn changes_are_applied_in_order() {
    let mut ladder = PriceLadder::new();
    ladder.apply(&vec![(10, 1), (20, 2), (10, 0), (30, 3), (20, 9), (10, 4), (30, 0)]);
    assert_eq!(levels(&ladder), vec![(10, 4), (20, 9)]);
}

#[test]
fn ladder_holds_the_extreme_prices() {
    let mut ladder = PriceLadder::new();
    ladder.set(u64::MAX, 1);
    ladder.set(0, 2);
    assert_eq!(levels(&ladder), vec![(0, 2), (u64::MAX, 1)]);
    assert_eq!(ladder.position(u64::MAX), 1);
}
