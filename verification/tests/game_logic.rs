use monte_hall_rust::game_logic::{
    add_rounds, available_doors, car_door_id, doors_with_car, host_reveal, host_reveal_at,
    open_door, resolve_game, run_batch, run_batch_wasm, setup_doors, switch_door, tally_round,
    tally_rounds, Door, DoorContent, DoorStatus,
};

#[test]
fn setup_doors_has_one_car_two_goats() {
    for _ in 0..100 {
        let doors = setup_doors().unwrap();
        let cars = doors.iter().filter(|d| d.content == DoorContent::Car).count();
        let goats = doors.iter().filter(|d| d.content == DoorContent::Goat).count();
        assert_eq!(cars, 1);
        assert_eq!(goats, 2);
    }
}

#[test]
fn host_never_reveals_car_or_player_choice() {
    for _ in 0..200 {
        let doors = setup_doors().unwrap();
        let player = doors[0].id;
        let revealed = host_reveal(&doors, player).unwrap();
        assert_ne!(revealed, player);
        let revealed_door = doors.iter().find(|d| d.id == revealed).unwrap();
        assert_eq!(revealed_door.content, DoorContent::Goat);
    }
}

#[test]
fn batch_simulation_converges() {
    let (sw, stw) = run_batch(100_000).unwrap();
    let total = 100_000f64;
    let switch_rate = sw as f64 / total;
    let stick_rate = stw as f64 / total;
    // Switch should be ~66.7%, stick ~33.3%
    assert!((switch_rate - 0.667).abs() < 0.02, "switch rate: {switch_rate}");
    assert!((stick_rate - 0.333).abs() < 0.02, "stick rate: {stick_rate}");
}

fn door(id: usize, content: DoorContent) -> Door {
    Door { id, content, status: DoorStatus::Closed }
}

#[test]
fn doors_with_car_lays_out_numbered_closed_doors() {
    let doors = doors_with_car(1);
    assert_eq!(
        doors,
        [door(1, DoorContent::Goat), door(2, DoorContent::Car), door(3, DoorContent::Goat)]
    );
    let none = doors_with_car(7);
    assert!(none.iter().all(|d| d.content == DoorContent::Goat));
}

#[test]
fn setup_doors_numbers_doors_and_keeps_them_closed() {
    for _ in 0..50 {
        let doors = setup_doors().unwrap();
        assert_eq!(doors.iter().map(|d| d.id).collect::<Vec<_>>(), vec![1, 2, 3]);
        assert!(doors.iter().all(|d| d.status == DoorStatus::Closed));
    }
}

#[test]
fn available_doors_lists_other_goat_doors() {
    let doors = doors_with_car(0);
    assert_eq!(available_doors(&doors, 1), vec![2, 3]);
    assert_eq!(available_doors(&doors, 2), vec![3]);
    assert_eq!(available_doors(&doors, 3), vec![2]);
    assert_eq!(available_doors(&doors, 9), vec![2, 3]);
}

#[test]
fn host_reveal_at_picks_by_position() {
    let doors = doors_with_car(0);
    assert_eq!(host_reveal_at(&doors, 1, 0), 2);
    assert_eq!(host_reveal_at(&doors, 1, 1), 3);
    assert_eq!(host_reveal_at(&doors, 2, 0), 3);
}

#[test]
fn host_reveal_has_only_one_choice_when_player_missed() {
    for _ in 0..50 {
        let doors = doors_with_car(2);
        assert_eq!(host_reveal(&doors, 1), Some(2));
        assert_eq!(host_reveal(&doors, 2), Some(1));
    }
}

#[test]
fn resolve_game_decides_and_opens_everything() {
    let doors = doors_with_car(2);
    let (won, opened) = resolve_game(&doors, 3);
    assert!(won);
    assert!(opened.iter().all(|d| d.status == DoorStatus::Open));
    for i in 0..3 {
        assert_eq!(opened[i].id, doors[i].id);
        assert_eq!(opened[i].content, doors[i].content);
    }
    let (lost, _) = resolve_game(&doors, 1);
    assert!(!lost);
    let (unknown, _) = resolve_game(&doors, 4);
    assert!(!unknown);
}

#[test]
fn open_door_opens_only_that_door() {
    let mut doors = doors_with_car(0);
    open_door(&mut doors, 2);
    assert_eq!(doors[0].status, DoorStatus::Closed);
    assert_eq!(doors[1].status, DoorStatus::Open);
    assert_eq!(doors[2].status, DoorStatus::Closed);
}

#[test]
fn switch_door_is_the_remaining_door() {
    assert_eq!(switch_door(1, 2), 3);
    assert_eq!(switch_door(1, 3), 2);
    assert_eq!(switch_door(3, 2), 1);
    assert_eq!(switch_door(2, 2), 1);
    assert_eq!(switch_door(1, 1), 2);
}

#[test]
fn car_door_id_finds_the_car() {
    assert_eq!(car_door_id(&doors_with_car(0)), Some(1));
    assert_eq!(car_door_id(&doors_with_car(2)), Some(3));
    assert_eq!(car_door_id(&doors_with_car(5)), None);
}

#[test]
fn switching_wins_exactly_when_first_pick_was_wrong() {
    for c in 0..3usize {
        let doors = doors_with_car(c);
        for pick in 1..=3usize {
            for revealed in available_doors(&doors, pick) {
                let (stick, _) = resolve_game(&doors, pick);
                let (switch, _) = resolve_game(&doors, switch_door(pick, revealed));
                assert_eq!(stick, pick == c + 1);
                assert_eq!(switch, pick != c + 1);
            }
        }
    }
}

#[test]
fn tally_round_credits_one_side() {
    assert_eq!(tally_round(4, 2, 1, 1), (4, 3));
    assert_eq!(tally_round(4, 2, 0, 2), (5, 2));
}

#[test]
fn run_batch_counts_every_round_once() {
    assert_eq!(run_batch(0), Some((0, 0)));
    let (sw, stw) = run_batch(1234).unwrap();
    assert_eq!(sw + stw, 1234);
    let v = run_batch_wasm(500).unwrap();
    assert_eq!(v.len(), 2);
    assert_eq!(v[0] + v[1], 500);
}

#[test]
fn switching_rule_holds_with_open_doors_too() {
    for c in 0..3usize {
        let mut doors = doors_with_car(c);
        open_door(&mut doors, 1);
        for pick in 1..=3usize {
            for revealed in available_doors(&doors, pick) {
                assert_eq!(resolve_game(&doors, pick).0, pick == c + 1);
                assert_eq!(resolve_game(&doors, switch_door(pick, revealed)).0, pick != c + 1);
            }
        }
    }
}

#[test]
fn host_reveal_draws_both_goats_when_player_holds_the_car() {
    let doors = doors_with_car(0);
    let mut seen = [false; 4];
    for _ in 0..200 {
        seen[host_reveal(&doors, 1).unwrap()] = true;
    }
    assert!(seen[2] && seen[3]);
    assert!(!seen[1]);
}

#[test]
fn tally_rounds_credits_each_round() {
    assert_eq!(tally_rounds(&vec![]), (0, 0));
    assert_eq!(tally_rounds(&vec![(0, 0), (1, 2), (2, 2), (0, 1), (2, 0)]), (3, 2));
}

#[test]
fn run_batch_wasm_of_nothing_is_two_zeros() {
    assert_eq!(run_batch_wasm(0), Some(vec![0, 0]));
    let (sw, stw) = run_batch(10_000).unwrap();
    assert_eq!(sw + stw, 10_000);
    assert!(sw > stw);
}

#[test]
fn add_rounds_extends_a_running_tally() {
    assert_eq!(add_rounds(5, 2, &vec![(1, 1), (0, 2), (2, 1)]), (7, 3));
    assert_eq!(add_rounds(5, 2, &vec![]), (5, 2));
}
