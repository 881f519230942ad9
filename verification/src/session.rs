//! The bookkeeping of a session: the interactive game's state machine, the
//! win statistics, the chunked turbo simulation and the bounded history.

use vstd::prelude::*;

use crate::game_logic::{
    host_reveal, layout_with_car, lemma_first_with_id_in_layout, lemma_host_can_always_reveal,
    lemma_revealable_ids_sound, lemma_switch_wins_iff_first_pick_wrong, open_door, opened,
    opened_if, other_door, resolve_game, revealable_ids, run_batch, setup_doors, switch_door,
    wins_with, Door, DoorContent, DoorStatus,
};
use crate::random::{gen_index, seeded_rng};

verus! {

/// Where an interactive game stands.
#[derive(Clone, Copy, Debug, PartialEq, Eq, Structural)]
pub enum GameState {
    /// Waiting for the player's first pick.
    Playing,
    /// The host has opened a goat door; waiting for the final choice.
    Revealed,
    /// The doors are open and the game is decided.
    Finished,
}

/// Games played, and the wins of switching and of sticking among them.
#[derive(Clone, Copy, Debug, PartialEq, Eq, Structural)]
pub struct Stats {
    pub total: u64,
    pub switch_wins: u64,
    pub stick_wins: u64,
}

impl Stats {
    /// No game counts more than one win.
    pub open spec fn wf(self) -> bool {
        self.switch_wins + self.stick_wins <= self.total
    }

    /// The statistics after one more interactive game, in which the player
    /// switched or not and won or not.
    pub open spec fn after_game(self, did_switch: bool, won: bool) -> Stats {
        Stats {
            total: (self.total + 1) as u64,
            switch_wins: if did_switch && won { (self.switch_wins + 1) as u64 } else { self.switch_wins },
            stick_wins: if !did_switch && won { (self.stick_wins + 1) as u64 } else { self.stick_wins },
        }
    }

    /// The statistics after one more demo round, in which the car stood
    /// behind `car_id`, the player first picked `pick` and the host opened
    /// `revealed`: switching wins if the remaining door is the car, sticking
    /// wins if the pick was.
    pub open spec fn after_demo_round(self, car_id: usize, pick: usize, revealed: usize) -> Stats {
        Stats {
            total: (self.total + 1) as u64,
            switch_wins: if other_door(pick, revealed) == car_id {
                (self.switch_wins + 1) as u64
            } else {
                self.switch_wins
            },
            stick_wins: if pick == car_id { (self.stick_wins + 1) as u64 } else { self.stick_wins },
        }
    }

    /// No game played yet.
    pub fn new() -> (s: Stats)
        ensures
            s == (Stats { total: 0, switch_wins: 0, stick_wins: 0 }),
    {
        Stats { total: 0, switch_wins: 0, stick_wins: 0 }
    }

    /// Counts one interactive game.
    pub fn record_game(&mut self, did_switch: bool, won: bool)
        requires
            old(self).total < u64::MAX,
            did_switch && won ==> old(self).switch_wins < u64::MAX,
            !did_switch && won ==> old(self).stick_wins < u64::MAX,
        ensures
            *final(self) == old(self).after_game(did_switch, won),
            final(self).total == old(self).total + 1,
            did_switch && won ==> final(self).switch_wins == old(self).switch_wins + 1
                && final(self).stick_wins == old(self).stick_wins,
            !did_switch && won ==> final(self).stick_wins == old(self).stick_wins + 1
                && final(self).switch_wins == old(self).switch_wins,
            !won ==> final(self).switch_wins == old(self).switch_wins && final(self).stick_wins
                == old(self).stick_wins,
    {
        self.total = self.total + 1;
        if did_switch && won {
            self.switch_wins = self.switch_wins + 1;
        }
        if !did_switch && won {
            self.stick_wins = self.stick_wins + 1;
        }
    }

    /// Counts one demo round.
    pub fn record_demo_round(&mut self, car_id: usize, pick: usize, revealed: usize)
        requires
            old(self).total < u64::MAX,
            other_door(pick, revealed) == car_id ==> old(self).switch_wins < u64::MAX,
            pick == car_id ==> old(self).stick_wins < u64::MAX,
        ensures
            *final(self) == old(self).after_demo_round(car_id, pick, revealed),
            final(self).total == old(self).total + 1,
            1 <= car_id <= 3 && 1 <= pick <= 3 && 1 <= revealed <= 3 && revealed != pick
                && revealed != car_id ==> {
                &&& pick == car_id ==> final(self).stick_wins == old(self).stick_wins + 1
                    && final(self).switch_wins == old(self).switch_wins
                &&& pick != car_id ==> final(self).switch_wins == old(self).switch_wins + 1
                    && final(self).stick_wins == old(self).stick_wins
            },
    {
        let switch_to = switch_door(pick, revealed);
        self.total = self.total + 1;
        if switch_to == car_id {
            self.switch_wins = self.switch_wins + 1;
        }
        if pick == car_id {
            self.stick_wins = self.stick_wins + 1;
        }
    }
}

impl Default for Stats {
    fn default() -> (s: Stats)
        ensures
            s == (Stats { total: 0, switch_wins: 0, stick_wins: 0 }),
    {
        Stats::new()
    }
}

/// Counting an interactive game adds one game, and one win exactly to the
/// side that won it: switching if the player switched and won, sticking if
/// the player stuck and won, neither if the game was lost.
pub proof fn lemma_after_game_credits_winner(s: Stats, did_switch: bool, won: bool)
    requires
        s.total < u64::MAX,
        s.switch_wins < u64::MAX,
        s.stick_wins < u64::MAX,
    ensures
        s.after_game(did_switch, won).total == s.total + 1,
        s.after_game(did_switch, won).switch_wins == s.switch_wins + if did_switch && won {
            1int
        } else {
            0int
        },
        s.after_game(did_switch, won).stick_wins == s.stick_wins + if !did_switch && won {
            1int
        } else {
            0int
        },
{
}

/// Counting a demo round on doors 1, 2, 3, where the host opened neither
/// the pick nor the car, adds one game and credits sticking exactly when the
/// pick was the car and switching exactly when it was not, wherever the car
/// stands.
pub proof fn lemma_demo_round_credits_winner(s: Stats, car_id: usize, pick: usize, revealed: usize)
    requires
        1 <= car_id <= 3,
        1 <= pick <= 3,
        1 <= revealed <= 3,
        revealed != pick,
        revealed != car_id,
        s.total < u64::MAX,
        s.switch_wins < u64::MAX,
        s.stick_wins < u64::MAX,
    ensures
        s.after_demo_round(car_id, pick, revealed).total == s.total + 1,
        s.after_demo_round(car_id, pick, revealed).stick_wins == s.stick_wins + if pick == car_id {
            1int
        } else {
            0int
        },
        s.after_demo_round(car_id, pick, revealed).switch_wins == s.switch_wins + if pick != car_id {
            1int
        } else {
            0int
        },
{
}

/// Counting a game keeps the statistics well formed: a game adds at most one
/// win.
pub proof fn lemma_after_game_wf(s: Stats, did_switch: bool, won: bool)
    requires
        s.wf(),
        s.total < u64::MAX,
    ensures
        s.after_game(did_switch, won).wf(),
        s.after_game(did_switch, won).total == s.total + 1,
{
}

/// In a demo round on any game whose doors are numbered 1, 2, 3 with the car
/// behind one of them, with a pick of 1, 2 or 3 and a door that the host may
/// open, exactly one of switching and sticking wins: a tally where every game
/// counts one win stays so.
pub proof fn lemma_demo_round_counts_one_win(
    s: Stats,
    doors: Seq<Door>,
    car_index: int,
    pick: usize,
    revealed: usize,
)
    requires
        layout_with_car(doors, car_index),
        1 <= pick <= 3,
        revealable_ids(doors, pick).contains(revealed),
        s.switch_wins + s.stick_wins == s.total,
        s.total < u64::MAX,
    ensures
        ({
            let t = s.after_demo_round((car_index + 1) as usize, pick, revealed);
            t.switch_wins + t.stick_wins == t.total
        }),
{
    lemma_switch_wins_iff_first_pick_wrong(doors, car_index, pick, revealed);
    lemma_first_with_id_in_layout(doors, car_index, other_door(pick, revealed));
    lemma_first_with_id_in_layout(doors, car_index, pick);
}

/// The first pick of a demo round: door 1, 2 or 3, drawn at random. `None`
/// when the operating system gives no seed for the random generator.
pub fn random_door() -> (d: Option<usize>)
    ensures
        d matches Some(d) ==> 1 <= d <= 3,
{
    match seeded_rng() {
        Some(mut rng) => Some(gen_index(&mut rng, 3) + 1),
        None => None,
    }
}

/// Whether the demo player switches: a fair coin, drawn as one of two
/// positions. `None` when the operating system gives no seed for the random
/// generator.
pub fn random_switch() -> (b: Option<bool>) {
    match seeded_rng() {
        Some(mut rng) => Some(gen_index(&mut rng, 2) == 1),
        None => None,
    }
}

/// What a click on a door did.
#[derive(Clone, Copy, Debug, PartialEq, Eq, Structural)]
pub enum ClickEffect {
    /// The game was already decided: nothing changed.
    Ignored,
    /// The first pick was made and the host opened this door.
    HostOpened(usize),
    /// The final choice was made: whether it won, and whether the player
    /// switched away from the first pick.
    Resolved { won: bool, did_switch: bool },
}

/// One interactive game: the doors, where it stands, the player's current
/// and first choice, the door the host opened, and the outcome once known.
#[derive(Clone, Copy, Debug)]
pub struct InteractiveGame {
    pub doors: [Door; 3],
    pub state: GameState,
    pub player_choice: Option<usize>,
    pub initial_choice: Option<usize>,
    pub host_choice: Option<usize>,
    pub did_win: Option<bool>,
}

/// The first choice, or 0 where none was recorded.
pub open spec fn choice_or_zero(c: Option<usize>) -> usize {
    match c {
        Some(c) => c,
        None => 0,
    }
}

/// All three doors are closed.
pub open spec fn all_closed(doors: Seq<Door>) -> bool {
    forall|i: int| 0 <= i < 3 ==> #[trigger] doors[i].status == DoorStatus::Closed
}

/// All three doors are open.
pub open spec fn all_open(doors: Seq<Door>) -> bool {
    forall|i: int| 0 <= i < 3 ==> #[trigger] doors[i].status == DoorStatus::Open
}

/// Exactly the door numbered `r` is open, and it hides a goat.
pub open spec fn only_goat_open(doors: Seq<Door>, r: usize) -> bool {
    forall|i: int|
        0 <= i < 3 ==> (#[trigger] doors[i].status == DoorStatus::Open <==> doors[i].id == r) && (
        doors[i].id == r ==> doors[i].content == DoorContent::Goat)
}

impl InteractiveGame {
    /// A well-formed game: doors numbered 1, 2, 3 with one car; before the
    /// first pick all doors are closed and nothing is chosen; after it, the
    /// host's door, one of 1, 2, 3 with a goat other than the pick, is the
    /// only open one; once
    /// decided, all doors are open and the outcome is known.
    pub open spec fn wf(self) -> bool {
        &&& exists|c: int| layout_with_car(self.doors@, c)
        &&& match self.state {
            GameState::Playing => {
                &&& all_closed(self.doors@)
                &&& self.player_choice is None
                &&& self.initial_choice is None
                &&& self.host_choice is None
                &&& self.did_win is None
            },
            GameState::Revealed => {
                &&& self.initial_choice is Some
                &&& self.player_choice == self.initial_choice
                &&& self.host_choice matches Some(r) && r != choice_or_zero(self.initial_choice)
                    && only_goat_open(self.doors@, r) && 1 <= r <= 3
                &&& self.did_win is None
            },
            GameState::Finished => {
                &&& all_open(self.doors@)
                &&& self.initial_choice is Some
                &&& self.player_choice is Some
                &&& self.host_choice is Some
                &&& self.did_win is Some
            },
        }
    }

    /// A game that waits for the first pick on the given doors.
    pub fn from_doors(doors: [Door; 3]) -> (g: InteractiveGame)
        ensures
            g.doors == doors,
            g.state == GameState::Playing,
            g.player_choice is None,
            g.initial_choice is None,
            g.host_choice is None,
            g.did_win is None,
            (exists|c: int| layout_with_car(doors@, c)) && all_closed(doors@) ==> g.wf(),
    {
        InteractiveGame {
            doors,
            state: GameState::Playing,
            player_choice: None,
            initial_choice: None,
            host_choice: None,
            did_win: None,
        }
    }

    /// A fresh game on newly laid out doors. `None` when the operating system
    /// gives no seed for the random generator.
    pub fn new() -> (g: Option<InteractiveGame>)
        ensures
            g matches Some(g) ==> {
                &&& exists|c: int| 0 <= c < 3 && g.doors@ == crate::game_logic::doors_spec(c)
                &&& g.state == GameState::Playing
                &&& g.wf()
            },
    {
        match setup_doors() {
            Some(doors) => {
                proof {
                    let c = choose|c: int|
                        0 <= c < 3 && doors@ == crate::game_logic::doors_spec(c);
                    crate::game_logic::lemma_setup_one_car_two_goats(c);
                }
                Some(InteractiveGame::from_doors(doors))
            },
            None => None,
        }
    }

    /// Whether a click on `door_id` can be handled: before the first pick,
    /// the host must have a door to open.
    pub open spec fn click_allowed(self, door_id: usize) -> bool {
        self.state == GameState::Playing ==> revealable_ids(self.doors@, door_id).len() > 0
    }

    /// Whether counting the game that a click on `door_id` decides keeps the
    /// statistics within range.
    pub open spec fn click_counts_fit(self, door_id: usize, stats: Stats) -> bool {
        let won = wins_with(self.doors@, door_id);
        let did_switch = door_id != choice_or_zero(self.initial_choice);
        self.state == GameState::Revealed ==> {
            &&& stats.total < u64::MAX
            &&& did_switch && won ==> stats.switch_wins < u64::MAX
            &&& !did_switch && won ==> stats.stick_wins < u64::MAX
        }
    }

    /// The player clicks door `door_id`. Before the first pick, the click
    /// picks it and the host opens, at random, another door with a goat.
    /// After that, the click is the final choice: the game is resolved, all
    /// doors open, and the game is counted in `stats`. Once decided, clicks
    /// change nothing. `None`, with nothing changed, when the host's draw
    /// finds no seed for the random generator.
    pub fn click(&mut self, door_id: usize, stats: &mut Stats) -> (effect: Option<ClickEffect>)
        requires
            old(self).click_allowed(door_id),
            old(self).click_counts_fit(door_id, *old(stats)),
        ensures
            effect is None ==> old(self).state == GameState::Playing && *final(self) == *old(self)
                && *final(stats) == *old(stats),
            old(self).state == GameState::Playing && effect is Some ==> {
                &&& effect matches Some(ClickEffect::HostOpened(r))
                &&& revealable_ids(old(self).doors@, door_id).contains(r)
                &&& forall|i: int|
                    0 <= i < 3 ==> #[trigger] final(self).doors@[i] == opened_if(old(self).doors@[i], r)
                &&& final(self).state == GameState::Revealed
                &&& final(self).player_choice == Some(door_id)
                &&& final(self).initial_choice == Some(door_id)
                &&& final(self).host_choice == Some(r)
                &&& final(self).did_win == old(self).did_win
                &&& *final(stats) == *old(stats)
            },
            old(self).state == GameState::Revealed ==> {
                let won = wins_with(old(self).doors@, door_id);
                let did_switch = door_id != choice_or_zero(old(self).initial_choice);
                &&& effect == Some(ClickEffect::Resolved { won, did_switch })
                &&& forall|i: int|
                    0 <= i < 3 ==> #[trigger] final(self).doors@[i] == opened(old(self).doors@[i])
                &&& final(self).state == GameState::Finished
                &&& final(self).player_choice == Some(door_id)
                &&& final(self).initial_choice == old(self).initial_choice
                &&& final(self).host_choice == old(self).host_choice
                &&& final(self).did_win == Some(won)
                &&& *final(stats) == old(stats).after_game(did_switch, won)
            },
            old(self).state == GameState::Finished ==> {
                &&& effect == Some(ClickEffect::Ignored)
                &&& *final(self) == *old(self)
                &&& *final(stats) == *old(stats)
            },
            old(self).wf() ==> final(self).wf(),
    {
        let ghost old_doors = self.doors@;
        match self.state {
            GameState::Playing => {
                match host_reveal(&self.doors, door_id) {
                    Some(revealed) => {
                        self.player_choice = Some(door_id);
                        self.initial_choice = Some(door_id);
                        self.host_choice = Some(revealed);
                        open_door(&mut self.doors, revealed);
                        self.state = GameState::Revealed;
                        proof {
                            if old(self).wf() {
                                let c = choose|c: int| layout_with_car(old_doors, c);
                                assert(layout_with_car(self.doors@, c));
                                let k = choose|k: int|
                                    0 <= k < revealable_ids(old_doors, door_id).len()
                                        && revealable_ids(old_doors, door_id)[k] == revealed;
                                lemma_revealable_ids_sound(old_doors, door_id, k);
                                let j = choose|j: int|
                                    0 <= j < old_doors.len() && #[trigger] old_doors[j].id == revealed
                                        && crate::game_logic::revealable(old_doors[j], door_id);
                                assert forall|i: int| 0 <= i < 3 implies (
                                #[trigger] self.doors@[i].status == DoorStatus::Open <==> self.doors@[i].id
                                    == revealed) && (self.doors@[i].id == revealed
                                    ==> self.doors@[i].content == DoorContent::Goat) by {
                                    assert(old_doors[i].id == i + 1);
                                    assert(old_doors[j].id == j + 1);
                                    assert(old_doors[i].status == DoorStatus::Closed);
                                }
                                assert(old_doors[j].id == j + 1);
                            }
                        }
                        Some(ClickEffect::HostOpened(revealed))
                    },
                    None => None,
                }
            },
            GameState::Revealed => {
                let (won, new_doors) = resolve_game(&self.doors, door_id);
                self.did_win = Some(won);
                self.doors = new_doors;
                self.player_choice = Some(door_id);
                self.state = GameState::Finished;
                let init = match self.initial_choice {
                    Some(c) => c,
                    None => 0,
                };
                let did_switch = door_id != init;
                stats.record_game(did_switch, won);
                proof {
                    if old(self).wf() {
                        let c = choose|c: int| layout_with_car(old_doors, c);
                        assert(layout_with_car(self.doors@, c));
                    }
                }
                Some(ClickEffect::Resolved { won, did_switch })
            },
            GameState::Finished => Some(ClickEffect::Ignored),
        }
    }
}

/// In a well-formed game, a click on door 1, 2 or 3 can always be handled:
/// before the first pick, the host has a goat to show.
pub proof fn lemma_click_allowed(g: InteractiveGame, door_id: usize)
    requires
        g.wf(),
        1 <= door_id <= 3,
    ensures
        g.click_allowed(door_id),
{
    let c = choose|c: int| layout_with_car(g.doors@, c);
    lemma_host_can_always_reveal(g.doors@, c, door_id);
}

/// The final door of a demo round: the remaining door when the player
/// switches, the first pick otherwise.
pub fn demo_final_pick(pick: usize, revealed: usize, will_switch: bool) -> (d: usize)
    ensures
        d == if will_switch { other_door(pick, revealed) } else { pick },
{
    if will_switch {
        switch_door(pick, revealed)
    } else {
        pick
    }
}

/// The last `n` entries of `s`, in order; all of `s` if it is no longer.
pub open spec fn last_n<T>(s: Seq<T>, n: nat) -> Seq<T> {
    if s.len() > n {
        s.subrange(s.len() - n, s.len() as int)
    } else {
        s
    }
}

/// Keeps only the last `max` entries of `history`, in order.
pub fn keep_last<T>(history: &mut Vec<T>, max: usize)
    ensures
        final(history)@ == last_n(old(history)@, max as nat),
        final(history)@.len() <= max,
{
    if history.len() > max {
        let start = history.len() - max;
        let tail = history.split_off(start);
        *history = tail;
    }
}

/// A history kept by pushing each new point and then trimming it to `cap`
/// is always the last `cap` of all the points pushed, in order: if it was so
/// before a push, it is so after.
pub proof fn lemma_bounded_history<T>(pushed: Seq<T>, history: Seq<T>, x: T, cap: nat)
    requires
        history == last_n(pushed, cap),
    ensures
        last_n(history.push(x), cap) == last_n(pushed.push(x), cap),
        last_n(pushed.push(x), cap).len() <= cap,
{
    let p = pushed.push(x);
    if pushed.len() > cap {
        assert(last_n(history.push(x), cap) =~= last_n(p, cap));
    } else {
        assert(history.push(x) =~= p);
    }
}

/// The most games a turbo run plays in one step, between two yields to the
/// display.
pub const TURBO_CHUNK: u64 = 1000000;

/// A turbo run of `runs` games played in chunks: how many are done, and the
/// wins of switching and of sticking so far.
#[derive(Clone, Copy, Debug, PartialEq, Eq, Structural)]
pub struct TurboRun {
    pub runs: u64,
    pub done: u64,
    pub switch_wins: u64,
    pub stick_wins: u64,
}

impl TurboRun {
    /// No more games done than asked for, and each done game counts one win.
    pub open spec fn wf(self) -> bool {
        &&& self.done <= self.runs
        &&& self.switch_wins + self.stick_wins == self.done
    }

    /// A run of `runs` games, none played yet.
    pub fn new(runs: u64) -> (t: TurboRun)
        ensures
            t == (TurboRun { runs, done: 0, switch_wins: 0, stick_wins: 0 }),
            t.wf(),
    {
        TurboRun { runs, done: 0, switch_wins: 0, stick_wins: 0 }
    }

    /// Whether every game of the run has been played.
    pub fn is_finished(&self) -> (b: bool)
        ensures
            b == (self.done >= self.runs),
    {
        self.done >= self.runs
    }

    /// The statistics so far.
    pub fn stats(&self) -> (s: Stats)
        ensures
            s == (Stats { total: self.done, switch_wins: self.switch_wins, stick_wins: self.stick_wins }),
    {
        Stats { total: self.done, switch_wins: self.switch_wins, stick_wins: self.stick_wins }
    }

    /// The size of the next chunk: `TURBO_CHUNK`, or what is left if less.
    pub open spec fn next_chunk(self) -> u64 {
        if TURBO_CHUNK < self.runs - self.done {
            TURBO_CHUNK
        } else {
            (self.runs - self.done) as u64
        }
    }

    /// The run after a chunk of `batch` games that switching won `sw` times
    /// and sticking `stw` times.
    pub open spec fn after_chunk(self, batch: u64, sw: u64, stw: u64) -> TurboRun {
        TurboRun {
            runs: self.runs,
            done: (self.done + batch) as u64,
            switch_wins: (self.switch_wins + sw) as u64,
            stick_wins: (self.stick_wins + stw) as u64,
        }
    }

    /// Adds a chunk of `batch` games, with `sw` won by switching and `stw` by
    /// sticking, to the run.
    pub fn add_chunk(&mut self, batch: u64, sw: u64, stw: u64)
        requires
            old(self).wf(),
            sw + stw == batch,
            old(self).done + batch <= old(self).runs,
        ensures
            *final(self) == old(self).after_chunk(batch, sw, stw),
            final(self).wf(),
    {
        self.done = self.done + batch;
        self.switch_wins = self.switch_wins + sw;
        self.stick_wins = self.stick_wins + stw;
    }

    /// Plays the next chunk of games at random and adds its tally. Returns
    /// the chunk's size, which is never 0 so that repeated steps finish the
    /// run, and the chunk's wins by switching and by sticking. `None`, with
    /// nothing changed, when the operating system gives no seed for the
    /// random generator.
    pub fn step(&mut self) -> (chunk: Option<(u64, u64, u64)>)
        requires
            old(self).wf(),
            old(self).done < old(self).runs,
        ensures
            chunk is None ==> *final(self) == *old(self),
            chunk matches Some((b, sw, stw)) ==> {
                &&& b == old(self).next_chunk()
                &&& b > 0
                &&& sw + stw == b
                &&& crate::game_logic::tally_of_draws(b as nat, sw as nat, stw as nat)
                &&& *final(self) == old(self).after_chunk(b, sw, stw)
            },
            final(self).wf(),
    {
        let left = self.runs - self.done;
        let batch = if TURBO_CHUNK < left { TURBO_CHUNK } else { left };
        match run_batch(batch) {
            Some((sw, stw)) => {
                self.add_chunk(batch, sw, stw);
                Some((batch, sw, stw))
            },
            None => None,
        }
    }
}

/// A well-formed run that reports itself finished has played exactly the
/// games asked for, and every one counts one win.
pub proof fn lemma_finished_run_complete(t: TurboRun)
    requires
        t.wf(),
        t.done >= t.runs,
    ensures
        t.done == t.runs,
        t.switch_wins + t.stick_wins == t.runs,
{
}

/// With the car behind door `car_id` and a host's door `revealed` that is
/// neither the pick nor the car, all among 1, 2, 3, exactly one of switching
/// and sticking wins.
pub proof fn lemma_one_of_switch_and_stick_wins(car_id: usize, pick: usize, revealed: usize)
    requires
        1 <= car_id <= 3,
        1 <= pick <= 3,
        1 <= revealed <= 3,
        revealed != pick,
        revealed != car_id,
    ensures
        (other_door(pick, revealed) == car_id) != (pick == car_id),
{
}

/// The number of the car's door in a game laid out with one car behind
/// doors numbered 1, 2, 3.
pub open spec fn car_id_of(doors: Seq<Door>) -> usize {
    ((choose|c: int| layout_with_car(doors, c)) + 1) as usize
}

/// One round of the visual demo, played on a game of its own: a random
/// first pick, the host's reveal, then a random switch or stick and the
/// resolution, counted in the demo's tally.
pub struct DemoRound {
    game: InteractiveGame,
}

impl DemoRound {
    /// The round's game is well formed, and once picked, the pick is one of
    /// the doors 1, 2, 3.
    #[verifier::type_invariant]
    spec fn inv(self) -> bool {
        &&& self.game.wf()
        &&& self.game.state != GameState::Playing ==> 1 <= choice_or_zero(self.game.initial_choice)
            <= 3
    }

    /// The round's game.
    pub closed spec fn game_spec(self) -> InteractiveGame {
        self.game
    }

    /// The round's game, as it stands.
    pub fn game(&self) -> (g: InteractiveGame)
        ensures
            g == self.game_spec(),
            g.wf(),
    {
        proof {
            use_type_invariant(self);
        }
        self.game
    }

    /// A round on newly laid out doors, waiting for the pick. `None` when the
    /// operating system gives no seed for the random generator.
    pub fn start() -> (r: Option<DemoRound>)
        ensures
            r matches Some(r) ==> r.game_spec().state == GameState::Playing && r.game_spec().wf(),
    {
        match InteractiveGame::new() {
            Some(game) => Some(DemoRound { game }),
            None => None,
        }
    }

    /// The player picks door 1, 2 or 3 at random and the host opens a goat
    /// door; returns the pick and the host's door. `None`, with nothing
    /// changed, when the operating system gives no seed for the random
    /// generator.
    pub fn host_opens(&mut self) -> (res: Option<(usize, usize)>)
        requires
            old(self).game_spec().state == GameState::Playing,
        ensures
            res is None ==> final(self).game_spec() == old(self).game_spec(),
            res matches Some((pick, revealed)) ==> {
                &&& 1 <= pick <= 3
                &&& revealable_ids(old(self).game_spec().doors@, pick).contains(revealed)
                &&& forall|i: int|
                    0 <= i < 3 ==> #[trigger] final(self).game_spec().doors@[i] == opened_if(
                        old(self).game_spec().doors@[i],
                        revealed,
                    )
                &&& final(self).game_spec().state == GameState::Revealed
                &&& final(self).game_spec().initial_choice == Some(pick)
                &&& final(self).game_spec().player_choice == Some(pick)
                &&& final(self).game_spec().host_choice == Some(revealed)
            },
    {
        proof {
            use_type_invariant(&*self);
        }
        let pick = match random_door() {
            Some(p) => p,
            None => {
                return None;
            },
        };
        let mut g = self.game;
        proof {
            lemma_click_allowed(g, pick);
        }
        let mut scratch = Stats::new();
        match g.click(pick, &mut scratch) {
            Some(ClickEffect::HostOpened(revealed)) => {
                self.game = g;
                Some((pick, revealed))
            },
            _ => None,
        }
    }

    /// The player switches or sticks at random, the game is resolved and the
    /// round is counted in `tally`: switching is credited if the remaining
    /// door hides the car, sticking if the pick does. Returns the final door
    /// and whether it won. `None`, with nothing changed, when the operating
    /// system gives no seed for the random generator.
    pub fn finish(&mut self, tally: &mut Stats) -> (res: Option<(usize, bool)>)
        requires
            old(self).game_spec().state == GameState::Revealed,
            old(tally).total < u64::MAX,
            ({
                let g = old(self).game_spec();
                let pick = choice_or_zero(g.initial_choice);
                let revealed = choice_or_zero(g.host_choice);
                let car = car_id_of(g.doors@);
                &&& other_door(pick, revealed) == car ==> old(tally).switch_wins < u64::MAX
                &&& pick == car ==> old(tally).stick_wins < u64::MAX
            }),
        ensures
            res is None ==> final(self).game_spec() == old(self).game_spec() && *final(tally)
                == *old(tally),
            res matches Some((final_pick, won)) ==> {
                let g = old(self).game_spec();
                let pick = choice_or_zero(g.initial_choice);
                let revealed = choice_or_zero(g.host_choice);
                &&& final_pick == pick || final_pick == other_door(pick, revealed)
                &&& won == wins_with(g.doors@, final_pick)
                &&& forall|i: int|
                    0 <= i < 3 ==> #[trigger] final(self).game_spec().doors@[i] == opened(
                        g.doors@[i],
                    )
                &&& final(self).game_spec().state == GameState::Finished
                &&& final(self).game_spec().player_choice == Some(final_pick)
                &&& final(self).game_spec().did_win == Some(won)
                &&& *final(tally) == old(tally).after_demo_round(car_id_of(g.doors@), pick, revealed)
                &&& old(tally).switch_wins + old(tally).stick_wins == old(tally).total
                    ==> final(tally).switch_wins + final(tally).stick_wins == final(tally).total
            },
    {
        proof {
            use_type_invariant(&*self);
        }
        let will_switch = match random_switch() {
            Some(b) => b,
            None => {
                return None;
            },
        };
        let g0 = self.game;
        let pick = match g0.initial_choice {
            Some(p) => p,
            None => 0,
        };
        let revealed = match g0.host_choice {
            Some(r) => r,
            None => 0,
        };
        let final_pick = demo_final_pick(pick, revealed, will_switch);
        let car = crate::game_logic::car_door_id(&g0.doors);
        let ghost c = choose|c: int| layout_with_car(g0.doors@, c);
        proof {
            crate::game_logic::lemma_car_door_of_layout(g0.doors@, c);
            assert(car_id_of(g0.doors@) == c + 1);
            assert(g0.doors@[c].id == c + 1);
            assert(g0.doors@[revealed - 1].id == revealed);
            assert(g0.doors@[revealed - 1].status == DoorStatus::Open);
            assert(g0.doors@[revealed - 1].content == DoorContent::Goat);
            lemma_one_of_switch_and_stick_wins((c + 1) as usize, pick, revealed);
        }
        let car_id = match car {
            Some(id) => id,
            None => {
                return None;
            },
        };
        let mut g = g0;
        let mut scratch = Stats::new();
        let won = match g.click(final_pick, &mut scratch) {
            Some(ClickEffect::Resolved { won, did_switch: _ }) => won,
            _ => {
                return None;
            },
        };
        self.game = g;
        tally.record_demo_round(car_id, pick, revealed);
        Some((final_pick, won))
    }
}

} // verus!
