use game_of_life::alive_or_dead;
use game_of_life::Status;
use game_of_life::Status::{Alive, Dead};

// The rule's answer when the first `alive` of the eight neighbours are alive.
fn with_live_neighbours(alive: usize) -> Status {
    let cells: Vec<Status> = (0..8).map(|i| if i < alive { Alive } else { Dead }).collect();
    alive_or_dead(&[
        &cells[0], &cells[1], &cells[2], &cells[3], &cells[4], &cells[5], &cells[6], &cells[7],
    ])
}

#[test]
fn no_live_neighbour_is_death() {
    assert_eq!(alive_or_dead(&[&Dead, &Dead, &Dead, &Dead, &Dead, &Dead, &Dead, &Dead]), Dead);
}

#[test]
fn one_live_neighbour_is_death() {
    assert_eq!(alive_or_dead(&[&Alive, &Dead, &Dead, &Dead, &Dead, &Dead, &Dead, &Dead]), Dead);
}

#[test]
fn two_live_neighbours_are_life() {
    assert_eq!(alive_or_dead(&[&Alive, &Alive, &Dead, &Dead, &Dead, &Dead, &Dead, &Dead]), Alive);
}

#[test]
fn three_live_neighbours_are_life() {
    assert_eq!(alive_or_dead(&[&Alive, &Alive, &Alive, &Dead, &Dead, &Dead, &Dead, &Dead]), Alive);
}

#[test]
fn four_live_neighbours_are_death() {
    assert_eq!(alive_or_dead(&[&Alive, &Alive, &Alive, &Alive, &Dead, &Dead, &Dead, &Dead]), Dead);
}

#[test]
fn rule_for_every_count() {
    let expected = [Dead, Dead, Alive, Alive, Dead, Dead, Dead, Dead, Dead];
    for alive in 0..=8 {
        assert_eq!(with_live_neighbours(alive), expected[alive], "{} live neighbours", alive);
    }
}

#[test]
fn rule_counts_neighbours_wherever_they_stand() {
    // Every way of placing live cells among the eight: only the count matters.
    for mask in 0u32..256 {
        let cells: Vec<Status> =
            (0..8).map(|i| if mask & (1 << i) != 0 { Alive } else { Dead }).collect();
        let status = alive_or_dead(&[
            &cells[0], &cells[1], &cells[2], &cells[3], &cells[4], &cells[5], &cells[6],
            &cells[7],
        ]);
        let count = mask.count_ones();
        let expected = if count == 2 || count == 3 { Alive } else { Dead };
        assert_eq!(status, expected, "neighbours {:08b}", mask);
    }
}
