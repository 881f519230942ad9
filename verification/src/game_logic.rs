//! The doors of one game, the host's reveal, the final resolution and the
//! batch simulation.

use vstd::prelude::*;

use crate::random::{gen_index, seeded_rng};

verus! {

/// What stands behind a door.
#[derive(Clone, Copy, Debug, PartialEq, Eq, Structural)]
pub enum DoorContent {
    Goat,
    Car,
}

/// Whether a door has been opened.
#[derive(Clone, Copy, Debug, PartialEq, Eq, Structural)]
pub enum DoorStatus {
    Closed,
    Open,
}

/// One of the three doors: its number (1, 2 or 3), what it hides, and
/// whether it is open.
#[derive(Clone, Copy, Debug, PartialEq, Eq, Structural)]
pub struct Door {
    pub id: usize,
    pub content: DoorContent,
    pub status: DoorStatus,
}

/// A closed door with the given number, hiding the car or a goat.
pub open spec fn closed_door(id: usize, is_car: bool) -> Door {
    Door {
        id,
        content: if is_car { DoorContent::Car } else { DoorContent::Goat },
        status: DoorStatus::Closed,
    }
}

/// The three closed doors numbered 1, 2, 3, with the car behind the door at
/// position `car_index` (and behind none if `car_index` is not 0, 1 or 2).
pub open spec fn doors_spec(car_index: int) -> Seq<Door> {
    seq![closed_door(1, car_index == 0), closed_door(2, car_index == 1), closed_door(3, car_index == 2)]
}

/// Lays out the three closed doors with the car at position `car_index`.
pub fn doors_with_car(car_index: usize) -> (doors: [Door; 3])
    ensures
        doors@ == doors_spec(car_index as int),
{
    let doors = [
        Door {
            id: 1,
            content: if car_index == 0 { DoorContent::Car } else { DoorContent::Goat },
            status: DoorStatus::Closed,
        },
        Door {
            id: 2,
            content: if car_index == 1 { DoorContent::Car } else { DoorContent::Goat },
            status: DoorStatus::Closed,
        },
        Door {
            id: 3,
            content: if car_index == 2 { DoorContent::Car } else { DoorContent::Goat },
            status: DoorStatus::Closed,
        },
    ];
    assert(doors@ =~= doors_spec(car_index as int));
    doors
}

/// A fresh game: three closed doors numbered 1, 2, 3, the car behind one of
/// them, chosen at random. `None` when the operating system gives no seed
/// for the random generator.
pub fn setup_doors() -> (doors: Option<[Door; 3]>)
    ensures
        doors matches Some(d) ==> exists|c: int| 0 <= c < 3 && d@ == doors_spec(c),
{
    match seeded_rng() {
        Some(mut rng) => {
            let car_index = gen_index(&mut rng, 3);
            Some(doors_with_car(car_index))
        },
        None => None,
    }
}

/// The three doors are numbered 1, 2, 3 in order and the car stands behind
/// the door at position `car_index` alone; the doors may be open or closed.
pub open spec fn layout_with_car(doors: Seq<Door>, car_index: int) -> bool {
    &&& doors.len() == 3
    &&& 0 <= car_index < 3
    &&& forall|i: int|
        0 <= i < 3 ==> #[trigger] doors[i].id == i + 1 && (doors[i].content == DoorContent::Car
            <==> i == car_index)
}

/// Whether the host may open `d` when the player holds door `player_choice`:
/// it is another door, and it hides a goat.
pub open spec fn revealable(d: Door, player_choice: usize) -> bool {
    d.id != player_choice && d.content == DoorContent::Goat
}

/// The numbers of the doors that the host may open, in the doors' order.
pub open spec fn revealable_ids(doors: Seq<Door>, player_choice: usize) -> Seq<usize>
    decreases doors.len(),
{
    if doors.len() == 0 {
        seq![]
    } else {
        let rest = revealable_ids(doors.drop_last(), player_choice);
        if revealable(doors.last(), player_choice) {
            rest.push(doors.last().id)
        } else {
            rest
        }
    }
}

/// Every number in `revealable_ids` belongs to a door that the host may open.
pub proof fn lemma_revealable_ids_sound(doors: Seq<Door>, player_choice: usize, k: int)
    requires
        0 <= k < revealable_ids(doors, player_choice).len(),
    ensures
        exists|i: int|
            0 <= i < doors.len() && #[trigger] doors[i].id == revealable_ids(doors, player_choice)[k]
                && revealable(doors[i], player_choice),
    decreases doors.len(),
{
    let rest = revealable_ids(doors.drop_last(), player_choice);
    if k < rest.len() {
        lemma_revealable_ids_sound(doors.drop_last(), player_choice, k);
        let i = choose|i: int|
            0 <= i < doors.drop_last().len() && #[trigger] doors.drop_last()[i].id == rest[k]
                && revealable(doors.drop_last()[i], player_choice);
        assert(doors[i] == doors.drop_last()[i]);
    } else {
        assert(doors[doors.len() - 1] == doors.last());
    }
}

/// The numbers of the doors that the host may open, in the doors' order.
pub fn available_doors(doors: &[Door; 3], player_choice: usize) -> (ids: Vec<usize>)
    ensures
        ids@ == revealable_ids(doors@, player_choice),
{
    let mut ids: Vec<usize> = Vec::new();
    let mut i: usize = 0;
    while i < 3
        invariant
            i <= 3,
            doors@.len() == 3,
            ids@ == revealable_ids(doors@.take(i as int), player_choice),
        decreases 3 - i,
    {
        assert(doors@.take(i as int + 1).drop_last() =~= doors@.take(i as int));
        let d = doors[i];
        if d.id != player_choice && d.content == DoorContent::Goat {
            ids.push(d.id);
        }
        i = i + 1;
    }
    assert(doors@.take(3) =~= doors@);
    ids
}

/// The door that the host opens when the chance draw fell on position `pick`
/// among the doors that he may open.
pub fn host_reveal_at(doors: &[Door; 3], player_choice: usize, pick: usize) -> (id: usize)
    requires
        pick < revealable_ids(doors@, player_choice).len(),
    ensures
        id == revealable_ids(doors@, player_choice)[pick as int],
{
    let available = available_doors(doors, player_choice);
    available[pick]
}

/// The host opens, at random, a door that the player did not choose and that
/// hides a goat. At least one such door must exist. `None` when the operating
/// system gives no seed for the random generator.
pub fn host_reveal(doors: &[Door; 3], player_choice: usize) -> (id: Option<usize>)
    requires
        revealable_ids(doors@, player_choice).len() > 0,
    ensures
        id matches Some(id) ==> {
            &&& revealable_ids(doors@, player_choice).contains(id)
            &&& id != player_choice
            &&& exists|i: int|
                0 <= i < 3 && doors@[i].id == id && doors@[i].content == DoorContent::Goat
        },
{
    let count = available_doors(doors, player_choice).len();
    match seeded_rng() {
        Some(mut rng) => {
            let k = gen_index(&mut rng, count);
            proof {
                lemma_revealable_ids_sound(doors@, player_choice, k as int);
            }
            Some(host_reveal_at(doors, player_choice, k))
        },
        None => None,
    }
}

/// Position `i` holds the first door numbered `id`.
pub open spec fn is_first_with_id(doors: Seq<Door>, id: usize, i: int) -> bool {
    &&& 0 <= i < doors.len()
    &&& doors[i].id == id
    &&& forall|j: int| 0 <= j < i ==> doors[j].id != id
}

/// The player who ends on door `id` wins: the first door with that number
/// hides the car. No such door means no win.
pub open spec fn wins_with(doors: Seq<Door>, id: usize) -> bool {
    exists|i: int| #[trigger] is_first_with_id(doors, id, i) && doors[i].content == DoorContent::Car
}

/// The same door, opened.
pub open spec fn opened(d: Door) -> Door {
    Door { status: DoorStatus::Open, ..d }
}

/// Whether the player wins with `final_choice`, and all the doors opened.
pub fn resolve_game(doors: &[Door; 3], final_choice: usize) -> (res: (bool, [Door; 3]))
    ensures
        res.0 == wins_with(doors@, final_choice),
        forall|i: int| 0 <= i < 3 ==> #[trigger] res.1@[i] == opened(doors@[i]),
{
    let mut win = false;
    let mut found = false;
    let mut i: usize = 0;
    while i < 3 && !found
        invariant
            i <= 3,
            doors@.len() == 3,
            !found ==> forall|j: int| 0 <= j < i ==> doors@[j].id != final_choice,
            found ==> win == wins_with(doors@, final_choice),
            !found ==> !win,
        decreases 2 * (3 - i) + (if found { 0int } else { 1int }),
    {
        if doors[i].id == final_choice {
            win = doors[i].content == DoorContent::Car;
            found = true;
            assert(is_first_with_id(doors@, final_choice, i as int));
            assert forall|k: int| is_first_with_id(doors@, final_choice, k) implies k == i by {
                if k > i {
                    assert(doors@[i as int].id == final_choice);
                }
            }
        } else {
            i = i + 1;
        }
    }
    if !found {
        assert forall|k: int| !is_first_with_id(doors@, final_choice, k) by {
            if 0 <= k < 3 {
                assert(doors@[k].id != final_choice);
            }
        }
    }
    let mut revealed = *doors;
    let mut j: usize = 0;
    while j < 3
        invariant
            j <= 3,
            revealed@.len() == 3,
            doors@.len() == 3,
            forall|k: int| 0 <= k < j ==> #[trigger] revealed@[k] == opened(doors@[k]),
            forall|k: int| j <= k < 3 ==> #[trigger] revealed@[k] == doors@[k],
        decreases 3 - j,
    {
        let d = revealed[j];
        revealed[j] = Door { id: d.id, content: d.content, status: DoorStatus::Open };
        j = j + 1;
    }
    (win, revealed)
}

/// The door numbered `id`, if any, opened; the others unchanged.
pub open spec fn opened_if(d: Door, id: usize) -> Door {
    if d.id == id { opened(d) } else { d }
}

/// Opens every door numbered `id` and leaves the others as they were.
pub fn open_door(doors: &mut [Door; 3], id: usize)
    ensures
        forall|i: int| 0 <= i < 3 ==> #[trigger] final(doors)@[i] == opened_if(old(doors)@[i], id),
{
    let mut j: usize = 0;
    while j < 3
        invariant
            j <= 3,
            doors@.len() == 3,
            old(doors)@.len() == 3,
            forall|k: int| 0 <= k < j ==> #[trigger] doors@[k] == opened_if(old(doors)@[k], id),
            forall|k: int| j <= k < 3 ==> #[trigger] doors@[k] == old(doors)@[k],
        decreases 3 - j,
    {
        let d = doors[j];
        if d.id == id {
            doors[j] = Door { id: d.id, content: d.content, status: DoorStatus::Open };
        }
        j = j + 1;
    }
}

/// The first of the doors numbered 1, 2, 3 that is neither `pick` nor
/// `revealed`. One always exists.
pub open spec fn other_door(pick: usize, revealed: usize) -> usize {
    if 1 != pick && 1 != revealed {
        1
    } else if 2 != pick && 2 != revealed {
        2
    } else {
        3
    }
}

/// The door a switching player moves to: the first of 1, 2, 3 that is
/// neither the initial pick nor the door the host opened.
pub fn switch_door(pick: usize, revealed: usize) -> (d: usize)
    ensures
        d == other_door(pick, revealed),
        1 <= d <= 3,
        d != pick,
        d != revealed,
{
    if 1 != pick && 1 != revealed {
        1
    } else if 2 != pick && 2 != revealed {
        2
    } else {
        3
    }
}

/// Position `i` holds the first door with the car.
pub open spec fn is_first_car(doors: Seq<Door>, i: int) -> bool {
    &&& 0 <= i < doors.len()
    &&& doors[i].content == DoorContent::Car
    &&& forall|j: int| 0 <= j < i ==> doors[j].content != DoorContent::Car
}

/// The number of the first door that hides the car, if any door does.
pub fn car_door_id(doors: &[Door; 3]) -> (id: Option<usize>)
    ensures
        match id {
            Some(id) => exists|i: int| is_first_car(doors@, i) && doors@[i].id == id,
            None => forall|i: int| 0 <= i < 3 ==> doors@[i].content != DoorContent::Car,
        },
{
    let mut i: usize = 0;
    while i < 3
        invariant
            i <= 3,
            doors@.len() == 3,
            forall|j: int| 0 <= j < i ==> doors@[j].content != DoorContent::Car,
        decreases 3 - i,
    {
        if doors[i].content == DoorContent::Car {
            assert(is_first_car(doors@, i as int));
            return Some(doors[i].id);
        }
        i = i + 1;
    }
    None
}

/// Adds one round to a tally: sticking wins if the first pick was the car,
/// switching wins otherwise.
pub fn tally_round(switch_wins: u64, stick_wins: u64, car: usize, pick: usize) -> (res: (u64, u64))
    requires
        switch_wins + stick_wins < u64::MAX,
    ensures
        res == (if pick == car {
            (switch_wins, (stick_wins + 1) as u64)
        } else {
            ((switch_wins + 1) as u64, stick_wins)
        }),
{
    if pick == car {
        (switch_wins, stick_wins + 1)
    } else {
        (switch_wins + 1, stick_wins)
    }
}

/// The rounds, each a (car, pick) pair of positions, in which the first pick
/// missed the car: the rounds that switching wins.
pub open spec fn switch_count(rounds: Seq<(usize, usize)>) -> nat
    decreases rounds.len(),
{
    if rounds.len() == 0 {
        0
    } else {
        switch_count(rounds.drop_last()) + if rounds.last().0 != rounds.last().1 {
            1nat
        } else {
            0nat
        }
    }
}

/// The rounds, each a (car, pick) pair of positions, in which the first pick
/// was the car: the rounds that sticking wins.
pub open spec fn stick_count(rounds: Seq<(usize, usize)>) -> nat
    decreases rounds.len(),
{
    if rounds.len() == 0 {
        0
    } else {
        stick_count(rounds.drop_last()) + if rounds.last().0 == rounds.last().1 {
            1nat
        } else {
            0nat
        }
    }
}

/// Every round is won by exactly one of switching and sticking.
pub proof fn lemma_counts_cover_rounds(rounds: Seq<(usize, usize)>)
    ensures
        switch_count(rounds) + stick_count(rounds) == rounds.len(),
    decreases rounds.len(),
{
    if rounds.len() > 0 {
        lemma_counts_cover_rounds(rounds.drop_last());
    }
}

/// The tally of rounds played one after the other is the sum of the tallies.
pub proof fn lemma_counts_append(a: Seq<(usize, usize)>, b: Seq<(usize, usize)>)
    ensures
        switch_count(a + b) == switch_count(a) + switch_count(b),
        stick_count(a + b) == stick_count(a) + stick_count(b),
    decreases b.len(),
{
    if b.len() > 0 {
        lemma_counts_append(a, b.drop_last());
        assert((a + b).drop_last() =~= a + b.drop_last());
        assert((a + b).last() == b.last());
    } else {
        assert(a + b =~= a);
    }
}

/// Tallies the given rounds, each a (car, pick) pair: `(switch_wins,
/// stick_wins)`.
pub fn tally_rounds(rounds: &Vec<(usize, usize)>) -> (res: (u64, u64))
    ensures
        res.0 == switch_count(rounds@),
        res.1 == stick_count(rounds@),
{
    let mut switch_wins: u64 = 0;
    let mut stick_wins: u64 = 0;
    let mut i: usize = 0;
    while i < rounds.len()
        invariant
            i <= rounds@.len(),
            switch_wins == switch_count(rounds@.take(i as int)),
            stick_wins == stick_count(rounds@.take(i as int)),
            switch_wins + stick_wins == i,
        decreases rounds@.len() - i,
    {
        let (car, pick) = rounds[i];
        assert(rounds@.take(i as int + 1).drop_last() =~= rounds@.take(i as int));
        let (sw, stw) = tally_round(switch_wins, stick_wins, car, pick);
        switch_wins = sw;
        stick_wins = stw;
        i = i + 1;
    }
    assert(rounds@.take(rounds@.len() as int) =~= rounds@);
    (switch_wins, stick_wins)
}

/// The most rounds that `run_batch` draws before tallying them.
pub const DRAW_BLOCK: usize = 4096;

/// Draws `n` rounds: for each, the car's position and the first pick's, each
/// 0, 1 or 2.
fn draw_rounds(rng: &mut rand::rngs::StdRng, n: usize) -> (rounds: Vec<(usize, usize)>)
    ensures
        rounds@.len() == n,
        forall|i: int| 0 <= i < n ==> #[trigger] rounds@[i].0 < 3 && rounds@[i].1 < 3,
{
    let mut rounds: Vec<(usize, usize)> = Vec::new();
    let mut i: usize = 0;
    while i < n
        invariant
            i <= n,
            rounds@.len() == i,
            forall|j: int| 0 <= j < i ==> #[trigger] rounds@[j].0 < 3 && rounds@[j].1 < 3,
        decreases n - i,
    {
        let car = gen_index(rng, 3);
        let pick = gen_index(rng, 3);
        rounds.push((car, pick));
        i = i + 1;
    }
    rounds
}

/// Adds the tally of `rounds` to a running tally of earlier rounds: the
/// result is the tally of the earlier rounds followed by these.
pub fn add_rounds(switch_wins: u64, stick_wins: u64, rounds: &Vec<(usize, usize)>) -> (res: (u64, u64))
    requires
        switch_wins + stick_wins + rounds@.len() <= u64::MAX,
    ensures
        res.0 == switch_wins + switch_count(rounds@),
        res.1 == stick_wins + stick_count(rounds@),
{
    let (sw, stw) = tally_rounds(rounds);
    proof {
        lemma_counts_cover_rounds(rounds@);
    }
    (switch_wins + sw, stick_wins + stw)
}

/// `(switch_wins, stick_wins)` is the tally of some `count` rounds whose
/// positions are 0, 1 or 2: switching credited with the rounds whose pick
/// missed the car, sticking with those whose pick was the car. Which rounds
/// were drawn is chance and is not named.
pub open spec fn tally_of_draws(count: nat, switch_wins: nat, stick_wins: nat) -> bool {
    exists|rounds: Seq<(usize, usize)>|
        {
            &&& rounds.len() == count
            &&& forall|i: int| 0 <= i < rounds.len() ==> #[trigger] rounds[i].0 < 3 && rounds[i].1 < 3
            &&& switch_wins == switch_count(rounds)
            &&& stick_wins == stick_count(rounds)
        }
}

/// Plays `count` rounds at random and returns `(switch_wins, stick_wins)`:
/// the rounds are drawn in blocks, each round placing the car and the first
/// pick among three positions, and `add_rounds` adds each block's tally to
/// the running one. Which rounds are drawn is chance; the result is the
/// tally of the rounds drawn. `None` when the operating system gives no seed
/// for the random generator.
pub fn run_batch(count: u64) -> (res: Option<(u64, u64)>)
    ensures
        res matches Some(r) ==> r.0 + r.1 == count && tally_of_draws(
            count as nat,
            r.0 as nat,
            r.1 as nat,
        ),
{
    let mut rng = match seeded_rng() {
        Some(rng) => rng,
        None => {
            return None;
        },
    };
    let mut switch_wins: u64 = 0;
    let mut stick_wins: u64 = 0;
    let ghost mut drawn: Seq<(usize, usize)> = seq![];
    let mut n: u64 = 0;
    while n < count
        invariant
            n <= count,
            drawn.len() == n,
            forall|i: int| 0 <= i < drawn.len() ==> #[trigger] drawn[i].0 < 3 && drawn[i].1 < 3,
            switch_wins == switch_count(drawn),
            stick_wins == stick_count(drawn),
            switch_wins + stick_wins == n,
        decreases count - n,
    {
        let left = count - n;
        let block_len: usize = if left < DRAW_BLOCK as u64 { left as usize } else { DRAW_BLOCK };
        let block = draw_rounds(&mut rng, block_len);
        proof {
            lemma_counts_cover_rounds(block@);
        }
        let (sw, stw) = add_rounds(switch_wins, stick_wins, &block);
        proof {
            lemma_counts_append(drawn, block@);
            let next = drawn + block@;
            assert forall|i: int| 0 <= i < next.len() implies #[trigger] next[i].0 < 3 && next[i].1
                < 3 by {
                if i < drawn.len() {
                    assert(next[i] == drawn[i]);
                } else {
                    assert(next[i] == block@[i - drawn.len()]);
                }
            }
            drawn = next;
        }
        switch_wins = sw;
        stick_wins = stw;
        n = n + block_len as u64;
    }
    Some((switch_wins, stick_wins))
}

/// `run_batch` with its tally as the two-element list
/// `[switch_wins, stick_wins]`.
pub fn run_batch_wasm(count: u64) -> (v: Option<Vec<u64>>)
    ensures
        v matches Some(v) ==> v@.len() == 2 && v@[0] + v@[1] == count && tally_of_draws(
            count as nat,
            v@[0] as nat,
            v@[1] as nat,
        ),
{
    match run_batch(count) {
        Some((sw, stw)) => Some(vec![sw, stw]),
        None => None,
    }
}

/// How many of the doors hide `content`.
pub open spec fn content_count(doors: Seq<Door>, content: DoorContent) -> nat
    decreases doors.len(),
{
    if doors.len() == 0 {
        0
    } else {
        content_count(doors.drop_last(), content) + if doors.last().content == content {
            1nat
        } else {
            0nat
        }
    }
}

/// A game laid out with the car at position 0, 1 or 2 has doors numbered 1, 2,
/// 3 in that order, all closed, one car and two goats.
pub proof fn lemma_setup_one_car_two_goats(car_index: int)
    requires
        0 <= car_index < 3,
    ensures
        layout_with_car(doors_spec(car_index), car_index),
        forall|i: int| 0 <= i < 3 ==> #[trigger] doors_spec(car_index)[i].status == DoorStatus::Closed,
        content_count(doors_spec(car_index), DoorContent::Car) == 1,
        content_count(doors_spec(car_index), DoorContent::Goat) == 2,
{
    let s = doors_spec(car_index);
    reveal_with_fuel(content_count, 4);
    assert(s.drop_last().drop_last().drop_last() =~= Seq::<Door>::empty());
}

/// In any game whose doors are numbered 1, 2, 3 with the car behind one of
/// them, whichever door 1, 2 or 3 the player picks, the host has a goat to
/// show: two doors to choose from when the player picked the car, one
/// otherwise.
pub proof fn lemma_host_can_always_reveal(doors: Seq<Door>, car_index: int, pick: usize)
    requires
        layout_with_car(doors, car_index),
        1 <= pick <= 3,
    ensures
        revealable_ids(doors, pick).len() == if pick == car_index + 1 {
            2int
        } else {
            1int
        },
{
    reveal_with_fuel(revealable_ids, 4);
    assert(doors.drop_last().drop_last().drop_last() =~= Seq::<Door>::empty());
    assert(doors.drop_last().drop_last().last() == doors[0]);
    assert(doors.drop_last().last() == doors[1]);
    assert(doors.last() == doors[2]);
    assert(doors[0].id == 1 && doors[1].id == 2 && doors[2].id == 3);
}

/// With the doors numbered 1, 2, 3 in order, the door numbered `id` is the
/// first with that number, and ending on it wins exactly when it hides the
/// car.
pub proof fn lemma_first_with_id_in_layout(doors: Seq<Door>, car_index: int, id: usize)
    requires
        layout_with_car(doors, car_index),
        1 <= id <= 3,
    ensures
        is_first_with_id(doors, id, id - 1),
        wins_with(doors, id) <==> id == car_index + 1,
{
    assert(doors[id - 1].id == id);
    assert forall|j: int| 0 <= j < id - 1 implies doors[j].id != id by {
        assert(doors[j].id == j + 1);
    }
    assert(is_first_with_id(doors, id, id - 1));
    assert forall|k: int| #[trigger] is_first_with_id(doors, id, k) implies k == id - 1 by {
        assert(doors[k].id == k + 1);
    }
}

/// The Monty Hall rule. In any game whose doors are numbered 1, 2, 3 with the
/// car behind one of them, after the player picks door 1, 2 or 3 and the host
/// opens a door that he may open, sticking with the pick wins exactly when
/// the pick was the car, and switching to the remaining door wins exactly
/// when it was not: one of the two always wins and never both.
pub proof fn lemma_switch_wins_iff_first_pick_wrong(
    doors: Seq<Door>,
    car_index: int,
    pick: usize,
    revealed: usize,
)
    requires
        layout_with_car(doors, car_index),
        1 <= pick <= 3,
        revealable_ids(doors, pick).contains(revealed),
    ensures
        wins_with(doors, pick) <==> pick == car_index + 1,
        wins_with(doors, other_door(pick, revealed)) <==> pick != car_index + 1,
        wins_with(doors, pick) != wins_with(doors, other_door(pick, revealed)),
{
    let k = choose|k: int|
        0 <= k < revealable_ids(doors, pick).len() && revealable_ids(doors, pick)[k] == revealed;
    lemma_revealable_ids_sound(doors, pick, k);
    let i = choose|i: int|
        0 <= i < doors.len() && #[trigger] doors[i].id == revealed && revealable(doors[i], pick);
    assert(doors[i].id == i + 1);
    assert(1 <= revealed <= 3);
    assert(revealed != car_index + 1);
    lemma_first_with_id_in_layout(doors, car_index, pick);
    lemma_first_with_id_in_layout(doors, car_index, other_door(pick, revealed));
}

/// In any game whose doors are numbered 1, 2, 3 with the car at position
/// `car_index`, the first door with the car is at that position, numbered one
/// more.
pub proof fn lemma_car_door_of_layout(doors: Seq<Door>, car_index: int)
    requires
        layout_with_car(doors, car_index),
    ensures
        is_first_car(doors, car_index),
        doors[car_index].id == car_index + 1,
        forall|i: int| #[trigger] is_first_car(doors, i) ==> i == car_index,
{
    assert(doors[car_index].id == car_index + 1);
    assert forall|j: int| 0 <= j < car_index implies doors[j].content != DoorContent::Car by {
        assert(doors[j].id == j + 1);
    }
    assert forall|i: int| #[trigger] is_first_car(doors, i) implies i == car_index by {
        assert(doors[i].id == i + 1);
    }
}

} // verus!
