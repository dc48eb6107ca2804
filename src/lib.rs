//! The rules of the dreidel game: what each face of the top does to a
//! player's stake and the pot, whose turn comes next, and when the game ends.
use vstd::prelude::*;

pub mod dreidel;
pub mod game;
pub mod player;

use dreidel::Dreidel;
use game::Game;
use player::Player;

verus! {

/// What the game reports as it goes, and how it is set up. Each method is
/// told of one event; none of them changes the game.
pub trait IOProvider: Sized {
    /// `player` has put one token into the pot, which now holds `pot`.
    fn announce_ante(&self, player: &Player, pot: usize);

    /// No player has a token left: the game is over without a winner.
    fn announce_no_qualified_player(&self);

    /// `player` spun `roll`; their stake and the pot (`pot`) are as after it.
    fn announce_turn(&self, roll: &Dreidel, player: &Player, pot: usize);

    /// The player named `name` holds every token still in play.
    fn announce_winner(&self, name: &str);

    /// Gathers the players and the starting stake and makes the game.
    fn set_up_game(self) -> Game<Self>;
}

} // verus!
