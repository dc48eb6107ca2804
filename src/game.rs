use crate::dreidel::{fresh_rng, resolve, Dreidel};
use crate::player::Player;
use crate::IOProvider;
use rand::ThreadRng;
use vstd::prelude::*;

verus! {

/// A game in progress: the players in seating order, the pot, and whose
/// turn it is (`None` once no player can act).
pub struct Game<T: IOProvider> {
    pub current_player: Option<usize>,
    pub io_provider: Box<T>,
    pub players: Vec<Player>,
    pub pot: usize,
    pub rng: ThreadRng,
}

/// Whether the player in seat `i` still holds a token.
pub open spec fn live(players: Seq<Player>, i: int) -> bool {
    0 <= i < players.len() && players[i].stake > 0
}

/// Whether some player still holds a token.
pub open spec fn any_live(players: Seq<Player>) -> bool {
    exists|i: int| live(players, i)
}

/// Whether the player in seat `i` is the only one who still holds a token.
pub open spec fn sole_live(players: Seq<Player>, i: int) -> bool {
    live(players, i) && forall|j: int| 0 <= j < players.len() && j != i ==> players[j].stake == 0
}

/// The seat `k` places after seat `c`, going round a table of `n` seats
/// (for `c < n` and `k <= n`).
pub open spec fn seat_after(c: int, k: int, n: int) -> int {
    if c + k < n {
        c + k
    } else {
        c + k - n
    }
}

/// Where the turn goes from seat `c`: to the first seat after it, going
/// round once and ending at `c` itself, whose player holds a token; or to
/// no one if nobody does.
pub open spec fn next_turn(players: Seq<Player>, c: int, next: Option<usize>) -> bool {
    let n = players.len() as int;
    match next {
        Some(x) => exists|k: int|
            1 <= k <= n && x == seat_after(c, k, n) && live(players, x as int) && forall|m: int|
                1 <= m < k ==> !live(players, #[trigger] seat_after(c, m, n)),
        None => !any_live(players),
    }
}

/// The tokens held by the players.
pub open spec fn total(players: Seq<Player>) -> nat
    decreases players.len(),
{
    if players.len() == 0 {
        0
    } else {
        total(players.drop_last()) + players.last().stake as nat
    }
}

/// How many players hold a token.
pub open spec fn live_count(players: Seq<Player>) -> nat
    decreases players.len(),
{
    if players.len() == 0 {
        0
    } else {
        live_count(players.drop_last()) + if players.last().stake > 0 { 1nat } else { 0nat }
    }
}

/// The players after the ante: each who holds a token has put one in.
pub open spec fn after_ante(players: Seq<Player>) -> Seq<Player> {
    players.map_values(|p: Player| Player { name: p.name, stake: if p.stake > 0 { (p.stake - 1) as usize } else { 0 } })
}

/// Replacing one player's record changes the total by the change in that stake.
proof fn lemma_total_update(players: Seq<Player>, i: int, p: Player)
    requires
        0 <= i < players.len(),
    ensures
        total(players.update(i, p)) + players[i].stake == total(players) + p.stake,
    decreases players.len(),
{
    let u = players.update(i, p);
    if i < players.len() - 1 {
        assert(u.drop_last() =~= players.drop_last().update(i, p));
        lemma_total_update(players.drop_last(), i, p);
    } else {
        assert(u.drop_last() =~= players.drop_last());
    }
}

/// Each player holds no more than all of them together.
proof fn lemma_total_bounds_stake(players: Seq<Player>, i: int)
    requires
        0 <= i < players.len(),
    ensures
        players[i].stake <= total(players),
{
    let p = Player { name: players[i].name, stake: 0 };
    lemma_total_update(players, i, p);
}

/// Counting the live players one seat further.
proof fn lemma_live_count_step(players: Seq<Player>, i: int)
    requires
        0 <= i < players.len(),
    ensures
        live_count(players.take(i + 1)) == live_count(players.take(i)) + if players[i].stake > 0 { 1nat } else { 0nat },
{
    assert(players.take(i + 1).drop_last() =~= players.take(i));
}

/// Where the game stands after one round of the loop.
#[derive(Debug, Clone, Copy, PartialEq, Eq, Structural)]
pub enum GameStatus {
    /// A turn was played and the game goes on.
    Running,
    /// The player in this seat holds every token still in play.
    Won(usize),
    /// No player holds a token.
    Stalled,
}

/// The players after a turn at seat `c` on which `roll` comes up: the ante,
/// then the spinner's stake as the roll leaves it.
pub open spec fn after_turn_players(players: Seq<Player>, pot: int, c: int, roll: Dreidel) -> Seq<Player> {
    let a = after_ante(players);
    let r = resolve(roll, a[c].stake as int, pot + live_count(players));
    a.update(c, Player { name: a[c].name, stake: r.0 as usize })
}

/// The pot after a turn at seat `c` on which `roll` comes up.
pub open spec fn after_turn_pot(players: Seq<Player>, pot: int, c: int, roll: Dreidel) -> int {
    resolve(roll, after_ante(players)[c].stake as int, pot + live_count(players)).1
}

/// The three ways of asking who may act agree: when one player alone holds
/// tokens, somebody may act, and the turn can pass from any seat to that
/// player only.
pub proof fn lemma_winner_agrees(players: Seq<Player>, w: int, c: int, next: Option<usize>)
    requires
        sole_live(players, w),
        0 <= c < players.len(),
        next_turn(players, c, next),
    ensures
        any_live(players),
        next == Some(w as usize),
{
    assert(live(players, w));
    if let Some(x) = next {
        assert(live(players, x as int));
    }
}

impl<T: IOProvider> Game<T> {
    /// The turn, when someone has it, is at a seat of the table, and every
    /// token in play can be counted in a `usize`.
    pub open spec fn wf(&self) -> bool {
        &&& (self.current_player matches Some(c) ==> c < self.players@.len())
        &&& (self.current_player is None ==> !any_live(self.players@))
        &&& total(self.players@) + self.pot <= usize::MAX
    }

    /// A game for the named players, seated in the order given, each
    /// starting with `starting_stake` tokens; the pot is empty and the first
    /// player has the turn.
    pub fn new(players: Vec<String>, starting_stake: usize, io_provider: T) -> (r: Game<T>)
        requires
            players@.len() > 0,
            players@.len() * starting_stake <= usize::MAX,
        ensures
            r.wf(),
            r.current_player == Some(0usize),
            r.pot == 0,
            r.players@.len() == players@.len(),
            forall|i: int|
                0 <= i < players@.len() ==> #[trigger] r.players@[i].name@ == players@[i]@
                    && r.players@[i].stake == starting_stake,
    {
        let n = players.len();
        let mut seated: Vec<Player> = Vec::new();
        let mut i: usize = 0;
        while i < n
            invariant
                n == players@.len(),
                n * starting_stake <= usize::MAX,
                i <= n,
                seated@.len() == i,
                total(seated@) == i * starting_stake,
                forall|j: int|
                    0 <= j < i ==> #[trigger] seated@[j].name@ == players@[j]@ && seated@[j].stake == starting_stake,
            decreases n - i,
        {
            let ghost before = seated@;
            seated.push(Player { name: players[i].clone(), stake: starting_stake });
            assert(seated@.drop_last() =~= before);
            assert((i + 1) * starting_stake == i * starting_stake + starting_stake) by (nonlinear_arith);
            i = i + 1;
        }
        Game { current_player: Some(0), io_provider: Box::new(io_provider), players: seated, pot: 0, rng: fresh_rng() }
    }

    /// Plays the turn of the player who has it, with `roll` as the face
    /// that comes up: everyone who holds a token antes one, then the roll
    /// is applied to that player's stake and the pot. The ante and the roll
    /// are announced. Without a player to act nothing happens.
    pub fn play_turn_with(&mut self, roll: Dreidel)
        requires
            old(self).wf(),
        ensures
            final(self).wf(),
            final(self).current_player == old(self).current_player,
            total(final(self).players@) + final(self).pot == total(old(self).players@) + old(self).pot,
            old(self).current_player is None ==> final(self).players == old(self).players && final(self).pot == old(self).pot,
            old(self).current_player matches Some(c) ==> final(self).players@ == after_turn_players(
                old(self).players@,
                old(self).pot as int,
                c as int,
                roll,
            ) && final(self).pot == after_turn_pot(old(self).players@, old(self).pot as int, c as int, roll),
    {
        if self.current_player.is_some() {
            let c = self.current_player.unwrap();
            self.ante();
            let mut stake = self.players[c].stake;
            let mut pot = self.pot;
            let ghost anted = self.players@;
            proof {
                lemma_total_bounds_stake(anted, c as int);
                crate::dreidel::lemma_resolve_conserves(roll, stake as int, pot as int);
            }
            roll.handle(&mut stake, &mut pot);
            self.players[c].stake = stake;
            self.pot = pot;
            proof {
                assert(self.players@ =~= anted.update(c as int, self.players@[c as int]));
                lemma_total_update(anted, c as int, self.players@[c as int]);
            }
            self.io_provider.announce_turn(&roll, &self.players[c], self.pot);
        }
    }

    /// Plays the turn of the player who has it, with a face drawn at
    /// random; see `play_turn_with`.
    pub fn play_turn(&mut self)
        requires
            old(self).wf(),
        ensures
            final(self).wf(),
            final(self).current_player == old(self).current_player,
            total(final(self).players@) + final(self).pot == total(old(self).players@) + old(self).pot,
            old(self).current_player is None ==> final(self).players == old(self).players && final(self).pot == old(self).pot,
            old(self).current_player matches Some(c) ==> exists|roll: Dreidel|
                final(self).players@ == #[trigger] after_turn_players(
                    old(self).players@,
                    old(self).pot as int,
                    c as int,
                    roll,
                ) && final(self).pot == after_turn_pot(old(self).players@, old(self).pot as int, c as int, roll),
    {
        if self.current_player.is_some() {
            let roll = Dreidel::draw(&mut self.rng);
            self.play_turn_with(roll);
        }
    }

    /// One round of the game loop. If exactly one player holds a token,
    /// that player has won; else if nobody does, the game is stalled; both
    /// are announced and leave the game as it was. Otherwise the turn passes
    /// to the next player who holds a token, who plays it.
    pub fn step(&mut self) -> (r: GameStatus)
        requires
            old(self).wf(),
        ensures
            final(self).wf(),
            forall|w: int| sole_live(old(self).players@, w) ==> r == GameStatus::Won(w as usize),
            !any_live(old(self).players@) ==> r == GameStatus::Stalled,
            r matches GameStatus::Won(w) ==> sole_live(old(self).players@, w as int),
            r is Stalled ==> !any_live(old(self).players@),
            r != GameStatus::Running ==> final(self).players == old(self).players && final(self).pot
                == old(self).pot && final(self).current_player == old(self).current_player,
            r is Running ==> exists|x: usize, roll: Dreidel|
                next_turn(old(self).players@, old(self).current_player.unwrap() as int, Some(x))
                    && final(self).current_player == Some(x)
                    && final(self).players@ == #[trigger] after_turn_players(old(self).players@, old(self).pot as int, x as int, roll)
                    && final(self).pot == after_turn_pot(old(self).players@, old(self).pot as int, x as int, roll),
    {
        match self.get_winner() {
            Some(w) => {
                self.io_provider.announce_winner(self.players[w].name.as_str());
                return GameStatus::Won(w);
            },
            None => {},
        }
        if !self.has_qualified_player() {
            self.io_provider.announce_no_qualified_player();
            return GameStatus::Stalled;
        }
        self.advance_player();
        self.play_turn();
        GameStatus::Running
    }

    /// Every player who holds a token puts one into the pot, in seating
    /// order, and each ante is announced.
    pub fn ante(&mut self)
        requires
            old(self).wf(),
        ensures
            final(self).wf(),
            final(self).players@ == after_ante(old(self).players@),
            final(self).pot == old(self).pot + live_count(old(self).players@),
            total(final(self).players@) + final(self).pot == total(old(self).players@) + old(self).pot,
            final(self).current_player == old(self).current_player,
    {
        let ghost start = self.players@;
        let mut i: usize = 0;
        while i < self.players.len()
            invariant
                self.wf(),
                i <= self.players@.len(),
                self.players@.len() == start.len(),
                forall|j: int| 0 <= j < i ==> self.players@[j] == after_ante(start)[j],
                forall|j: int| i <= j < start.len() ==> self.players@[j] == start[j],
                self.pot == old(self).pot + live_count(start.take(i as int)),
                total(self.players@) + self.pot == total(start) + old(self).pot,
                self.current_player == old(self).current_player,
                self.current_player is None ==> !any_live(start),
            decreases start.len() - i,
        {
            proof {
                lemma_live_count_step(start, i as int);
            }
            if self.players[i].stake > 0 {
                let stake = self.players[i].stake;
                assert(live(start, i as int));
                proof {
                    lemma_total_bounds_stake(self.players@, i as int);
                }
                let ghost before = self.players@;
                self.players[i].stake = stake - 1;
                proof {
                    assert(self.players@ =~= before.update(i as int, self.players@[i as int]));
                    lemma_total_update(before, i as int, self.players@[i as int]);
                }
                self.pot = self.pot + 1;
                self.io_provider.announce_ante(&self.players[i], self.pot);
            }
            i = i + 1;
        }
        assert(start.take(start.len() as int) =~= start);
        assert(self.players@ =~= after_ante(start));
    }

    /// Whether some player still holds a token.
    pub fn has_qualified_player(&self) -> (r: bool)
        ensures
            r == any_live(self.players@),
    {
        let mut i: usize = 0;
        while i < self.players.len()
            invariant
                i <= self.players@.len(),
                forall|j: int| 0 <= j < i ==> !live(self.players@, j),
            decreases self.players@.len() - i,
        {
            if self.players[i].stake > 0 {
                assert(live(self.players@, i as int));
                return true;
            }
            i = i + 1;
        }
        false
    }

    /// The seat of the only player who still holds a token, if exactly one does.
    pub fn get_winner(&self) -> (r: Option<usize>)
        ensures
            r matches Some(w) ==> sole_live(self.players@, w as int),
            r is None ==> forall|w: int| !sole_live(self.players@, w),
    {
        let mut found: Option<usize> = None;
        let mut i: usize = 0;
        while i < self.players.len()
            invariant
                i <= self.players@.len(),
                found matches Some(f) ==> f < i && live(self.players@, f as int),
                forall|j: int|
                    0 <= j < i && live(self.players@, j) ==> found == Some(j as usize),
            decreases self.players@.len() - i,
        {
            if self.players[i].stake > 0 {
                if found.is_some() {
                    let f = found.unwrap();
                    assert(!sole_live(self.players@, f as int));
                    assert forall|w: int| !sole_live(self.players@, w) by {
                        if sole_live(self.players@, w) && w != f {
                            assert(self.players@[f as int].stake == 0);
                        }
                    }
                    return None;
                }
                found = Some(i);
            }
            i = i + 1;
        }
        if found.is_some() {
            let f = found.unwrap();
            assert forall|j: int| 0 <= j < self.players@.len() && j != f implies self.players@[j].stake == 0 by {
                if self.players@[j].stake > 0 {
                    assert(live(self.players@, j));
                }
            }
        }
        found
    }

    /// Passes the turn to the next player round the table who holds a
    /// token, or to no one if nobody does. A game whose turn is with no one
    /// stays so.
    pub fn advance_player(&mut self)
        requires
            old(self).wf(),
        ensures
            final(self).wf(),
            final(self).players == old(self).players,
            final(self).pot == old(self).pot,
            old(self).current_player is None ==> final(self).current_player is None,
            old(self).current_player matches Some(c) ==> next_turn(
                old(self).players@,
                c as int,
                final(self).current_player,
            ),
            final(self).current_player matches Some(x) ==> x < old(self).players@.len()
                && old(self).players@[x as int].stake > 0,
            final(self).current_player is None ==> forall|i: int|
                0 <= i < old(self).players@.len() ==> old(self).players@[i].stake == 0,
    {
        if self.current_player.is_some() {
            let c = self.current_player.unwrap();
            let next = Self::next_seat(&self.players, c);
            self.current_player = next;
        }
        assert forall|i: int| 0 <= i < self.players@.len() && self.current_player is None implies self.players@[i].stake == 0 by {
            assert(!live(self.players@, i));
        }
    }

    /// The first seat after `c`, going round once and ending at `c` itself,
    /// whose player holds a token; `None` if nobody does.
    fn next_seat(players: &Vec<Player>, c: usize) -> (r: Option<usize>)
        requires
            c < players@.len(),
        ensures
            next_turn(players@, c as int, r),
            r matches Some(x) ==> x < players@.len(),
    {
        let n = players.len();
        let mut idx: usize = c;
        let mut k: usize = 0;
        while k < n
            invariant
                n == players@.len(),
                c < n,
                k <= n,
                idx == seat_after(c as int, k as int, n as int),
                forall|m: int| 1 <= m <= k ==> !live(players@, #[trigger] seat_after(c as int, m, n as int)),
            decreases n - k,
        {
            idx = if idx + 1 == n { 0 } else { idx + 1 };
            k = k + 1;
            if players[idx].stake > 0 {
                assert(live(players@, idx as int));
                assert(1 <= k <= n && idx == seat_after(c as int, k as int, n as int));
                return Some(idx);
            }
        }
        assert(!any_live(players@)) by {
            assert forall|i: int| !live(players@, i) by {
                if 0 <= i < n {
                    let m = if i > c { i - c } else { i + n - c };
                    assert(seat_after(c as int, m, n as int) == i);
                }
            }
        }
        None
    }
}

} // verus!
