use monte_hall_rust::game_logic::{doors_with_car, DoorContent, DoorStatus};
use monte_hall_rust::session::{
    demo_final_pick, keep_last, random_door, random_switch, ClickEffect, DemoRound, GameState,
    InteractiveGame, Stats, TurboRun, TURBO_CHUNK,
};
use monte_hall_rust::view::{
    compact_unit, control_mode, door_disabled, door_face, is_turbo, CompactUnit, ControlMode,
    DoorFace,
};

#[test]
fn stats_count_games_and_wins() {
    let mut s = Stats::default();
    assert_eq!(s, Stats { total: 0, switch_wins: 0, stick_wins: 0 });
    s.record_game(true, true);
    s.record_game(false, true);
    s.record_game(true, false);
    s.record_game(false, false);
    assert_eq!(s, Stats { total: 4, switch_wins: 1, stick_wins: 1 });
}

#[test]
fn demo_round_credits_exactly_one_side() {
    let mut s = Stats::new();
    // car behind 2, pick 1, host opens 3: switching wins
    s.record_demo_round(2, 1, 3);
    assert_eq!(s, Stats { total: 1, switch_wins: 1, stick_wins: 0 });
    // car behind 2, pick 2, host opens 1: sticking wins
    s.record_demo_round(2, 2, 1);
    assert_eq!(s, Stats { total: 2, switch_wins: 1, stick_wins: 1 });
}

#[test]
fn demo_final_pick_switches_or_sticks() {
    assert_eq!(demo_final_pick(1, 2, true), 3);
    assert_eq!(demo_final_pick(1, 2, false), 1);
}

#[test]
fn interactive_game_runs_through_its_states() {
    let mut g = InteractiveGame::from_doors(doors_with_car(0));
    let mut s = Stats::new();
    let first = g.click(1, &mut s);
    let revealed = match first {
        Some(ClickEffect::HostOpened(r)) => r,
        other => panic!("unexpected {:?}", other),
    };
    assert!(revealed == 2 || revealed == 3);
    assert_eq!(g.state, GameState::Revealed);
    assert_eq!(g.host_choice, Some(revealed));
    assert_eq!(g.initial_choice, Some(1));
    assert_eq!(g.doors[revealed - 1].status, DoorStatus::Open);
    assert_eq!(g.doors[revealed - 1].content, DoorContent::Goat);
    assert_eq!(s, Stats::new());

    let other = if revealed == 2 { 3 } else { 2 };
    let second = g.click(other, &mut s);
    assert_eq!(second, Some(ClickEffect::Resolved { won: false, did_switch: true }));
    assert_eq!(g.state, GameState::Finished);
    assert_eq!(g.did_win, Some(false));
    assert_eq!(g.player_choice, Some(other));
    assert!(g.doors.iter().all(|d| d.status == DoorStatus::Open));
    assert_eq!(s, Stats { total: 1, switch_wins: 0, stick_wins: 0 });

    assert_eq!(g.click(1, &mut s), Some(ClickEffect::Ignored));
    assert_eq!(s.total, 1);
}

#[test]
fn interactive_game_sticking_on_the_car_wins() {
    let mut g = InteractiveGame::from_doors(doors_with_car(1));
    let mut s = Stats::new();
    let first = g.click(2, &mut s);
    assert_eq!(first, Some(ClickEffect::HostOpened(g.host_choice.unwrap())));
    assert_eq!(g.click(2, &mut s), Some(ClickEffect::Resolved { won: true, did_switch: false }));
    assert_eq!(s, Stats { total: 1, switch_wins: 0, stick_wins: 1 });
}

#[test]
fn new_game_waits_for_first_pick() {
    let g = InteractiveGame::new().unwrap();
    assert_eq!(g.state, GameState::Playing);
    assert_eq!(g.player_choice, None);
    assert_eq!(g.doors.iter().filter(|d| d.content == DoorContent::Car).count(), 1);
}

#[test]
fn keep_last_trims_from_the_front() {
    let mut h: Vec<u32> = (0..60).collect();
    keep_last(&mut h, 50);
    assert_eq!(h, (10..60).collect::<Vec<u32>>());
    let mut short = vec![1, 2, 3];
    keep_last(&mut short, 50);
    assert_eq!(short, vec![1, 2, 3]);
}

#[test]
fn turbo_run_plays_in_chunks() {
    let mut t = TurboRun::new(2_500_000);
    assert!(!t.is_finished());
    for expected in [TURBO_CHUNK, TURBO_CHUNK, 500_000] {
        let before = t;
        let (b, sw, stw) = t.step().unwrap();
        assert_eq!(b, expected);
        assert_eq!(sw + stw, b);
        assert_eq!(t.done, before.done + b);
        assert_eq!(t.switch_wins, before.switch_wins + sw);
        assert_eq!(t.stick_wins, before.stick_wins + stw);
    }
    assert!(t.is_finished());
    let s = t.stats();
    assert_eq!(s.total, 2_500_000);
    assert_eq!(s.switch_wins + s.stick_wins, 2_500_000);
}

#[test]
fn view_decisions() {
    let closed = doors_with_car(0)[0];
    let mut open = closed;
    open.status = DoorStatus::Open;
    assert_eq!(door_face(&closed, false), DoorFace::Closed);
    assert_eq!(door_face(&closed, true), DoorFace::Chosen);
    assert_eq!(door_face(&open, false), DoorFace::Car);
    let mut goat = doors_with_car(0)[1];
    goat.status = DoorStatus::Open;
    assert_eq!(door_face(&goat, true), DoorFace::Goat);

    assert!(!door_disabled(GameState::Playing, &closed, false, false));
    assert!(door_disabled(GameState::Finished, &closed, false, false));
    assert!(door_disabled(GameState::Playing, &open, false, false));
    assert!(door_disabled(GameState::Playing, &closed, true, false));

    assert!(!is_turbo(1000));
    assert!(is_turbo(1001));
    assert_eq!(control_mode(true, false, 5), ControlMode::Stop);
    assert_eq!(control_mode(false, false, 1_000_000), ControlMode::Turbo);
    assert_eq!(control_mode(false, false, 10), ControlMode::Demo);

    assert_eq!(compact_unit(999), CompactUnit::Units);
    assert_eq!(compact_unit(1_000), CompactUnit::Thousands);
    assert_eq!(compact_unit(1_000_000), CompactUnit::Millions);
    assert_eq!(compact_unit(2_000_000_000), CompactUnit::Billions);
}

#[test]
fn bounded_history_is_the_last_points_pushed() {
    let mut h: Vec<u32> = Vec::new();
    for x in 0..120u32 {
        h.push(x);
        keep_last(&mut h, 50);
        assert!(h.len() <= 50);
    }
    assert_eq!(h, (70..120).collect::<Vec<u32>>());
}

#[test]
fn random_door_and_switch_draw_all_outcomes() {
    let mut doors = [false; 4];
    let mut coins = [false; 2];
    for _ in 0..300 {
        doors[random_door().unwrap()] = true;
        coins[random_switch().unwrap() as usize] = true;
    }
    assert!(!doors[0] && doors[1] && doors[2] && doors[3]);
    assert!(coins[0] && coins[1]);
}

#[test]
fn demo_rounds_on_fresh_games_count_one_win_each() {
    let mut s = Stats::new();
    for _ in 0..100 {
        let mut g = InteractiveGame::new().unwrap();
        let car = g.doors.iter().find(|d| d.content == DoorContent::Car).unwrap().id;
        let pick = random_door().unwrap();
        let mut scratch = Stats::new();
        let revealed = match g.click(pick, &mut scratch) {
            Some(ClickEffect::HostOpened(r)) => r,
            other => panic!("unexpected {:?}", other),
        };
        assert_ne!(revealed, pick);
        assert_ne!(revealed, car);
        s.record_demo_round(car, pick, revealed);
    }
    assert_eq!(s.switch_wins + s.stick_wins, s.total);
}

#[test]
fn demo_round_plays_through_and_counts_one_win() {
    let mut tally = Stats::new();
    for _ in 0..100 {
        let mut round = DemoRound::start().unwrap();
        assert_eq!(round.game().state, GameState::Playing);
        let (pick, revealed) = round.host_opens().unwrap();
        let g = round.game();
        assert_eq!(g.state, GameState::Revealed);
        assert_eq!(g.initial_choice, Some(pick));
        assert_eq!(g.host_choice, Some(revealed));
        assert_ne!(pick, revealed);
        assert_eq!(g.doors[revealed - 1].content, DoorContent::Goat);
        let car = g.doors.iter().find(|d| d.content == DoorContent::Car).unwrap().id;
        let before = tally;
        let (final_pick, won) = round.finish(&mut tally).unwrap();
        let g = round.game();
        assert_eq!(g.state, GameState::Finished);
        assert_eq!(g.did_win, Some(won));
        assert_eq!(won, final_pick == car);
        assert!(final_pick == pick || (final_pick != revealed && final_pick != pick));
        assert_eq!(tally.total, before.total + 1);
        assert_eq!(tally.switch_wins + tally.stick_wins, tally.total);
    }
}

#[test]
fn add_chunk_credits_each_side() {
    let mut t = TurboRun::new(100);
    t.add_chunk(30, 20, 10);
    assert_eq!(t, TurboRun { runs: 100, done: 30, switch_wins: 20, stick_wins: 10 });
    t.add_chunk(70, 45, 25);
    assert_eq!(t, TurboRun { runs: 100, done: 100, switch_wins: 65, stick_wins: 35 });
    assert!(t.is_finished());
}
