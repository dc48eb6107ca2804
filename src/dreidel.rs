use rand::ThreadRng;
use vstd::prelude::*;

verus! {

#[verifier::external_type_specification]
#[verifier::external_body]
pub struct ExThreadRng(rand::ThreadRng);

/// Relies on rand::thread_rng: hands out the thread's generator, seeded by the system.
#[verifier::external_body]
pub(crate) fn fresh_rng() -> ThreadRng {
    rand::thread_rng()
}

/// Relies on rand::sample: taking one item out of the range `0..n`, which
/// holds at least one, gives a vector of exactly one item of that range.
#[verifier::external_body]
#[allow(deprecated)]
fn pick_below(rng: &mut ThreadRng, n: usize) -> (r: usize)
    requires
        n > 0,
    ensures
        r < n,
{
    rand::sample(rng, 0..n, 1)[0]
}

/// The four faces of the top.
#[derive(Debug, Clone, Copy, PartialEq, Eq, Structural)]
pub enum Dreidel {
    /// Nothing happens.
    Nun,
    /// The spinner takes the whole pot.
    Gimel,
    /// The spinner takes half the pot, rounded up.
    He,
    /// The spinner pays one token into the pot, if they have one.
    Shin,
}

/// Half of the pot, rounded up: what a spinner of `He` takes.
pub open spec fn ceil_half(pot: int) -> int {
    (pot + 1) / 2
}

/// The stake and pot after `outcome` is spun by a player holding `stake`.
pub open spec fn resolve(outcome: Dreidel, stake: int, pot: int) -> (int, int) {
    match outcome {
        Dreidel::Nun => (stake, pot),
        Dreidel::Gimel => (stake + pot, 0),
        Dreidel::He => (stake + ceil_half(pot), pot - ceil_half(pot)),
        Dreidel::Shin => if stake > 0 {
            (stake - 1, pot + 1)
        } else {
            (stake, pot)
        },
    }
}

/// Spinning `Nun` changes nothing.
pub proof fn lemma_nun_keeps(stake: int, pot: int)
    requires
        stake >= 0,
        pot >= 0,
    ensures
        resolve(Dreidel::Nun, stake, pot) == (stake, pot),
{
}

/// Spinning `Gimel` moves the whole pot to the spinner.
pub proof fn lemma_gimel_takes_all(stake: int, pot: int)
    requires
        stake >= 0,
        pot >= 0,
    ensures
        resolve(Dreidel::Gimel, stake, pot) == (stake + pot, 0int),
{
}

/// Spinning `He` moves half the pot, rounded up, to the spinner and leaves
/// the rest, half rounded down; on an empty pot it changes nothing.
pub proof fn lemma_he_takes_half(stake: int, pot: int)
    requires
        stake >= 0,
        pot >= 0,
    ensures
        resolve(Dreidel::He, stake, pot) == (stake + ceil_half(pot), pot - ceil_half(pot)),
        0 <= ceil_half(pot) <= pot,
        pot - ceil_half(pot) == pot / 2,
        resolve(Dreidel::He, stake, 0) == (stake, 0int),
{
}

/// Spinning `Shin` costs a spinner with a token exactly one, paid into the
/// pot; a spinner with nothing pays nothing.
pub proof fn lemma_shin_pays_one(stake: int, pot: int)
    requires
        stake >= 0,
        pot >= 0,
    ensures
        resolve(Dreidel::Shin, 0, pot) == (0int, pot),
        stake > 0 ==> resolve(Dreidel::Shin, stake, pot) == (stake - 1, pot + 1),
{
}

/// No face creates or destroys tokens: stake plus pot is the same after the
/// spin and neither goes negative. Only `Shin` moves tokens from the stake
/// to the pot, one if the spinner has any and none otherwise; the other
/// faces only move tokens from the pot to the stake.
pub proof fn lemma_resolve_conserves(outcome: Dreidel, stake: int, pot: int)
    requires
        stake >= 0,
        pot >= 0,
    ensures
        resolve(outcome, stake, pot).0 + resolve(outcome, stake, pot).1 == stake + pot,
        resolve(outcome, stake, pot).0 >= 0,
        resolve(outcome, stake, pot).1 >= 0,
        outcome == Dreidel::Shin ==> resolve(outcome, stake, pot).1 - pot == (if stake > 0 { 1int } else { 0int }),
        outcome != Dreidel::Shin ==> resolve(outcome, stake, pot).0 >= stake,
{
}

impl Dreidel {
    /// The face at `index` in the order Nun, Gimel, He, Shin.
    pub open spec fn face(index: int) -> Dreidel {
        if index == 0 {
            Dreidel::Nun
        } else if index == 1 {
            Dreidel::Gimel
        } else if index == 2 {
            Dreidel::He
        } else {
            Dreidel::Shin
        }
    }

    /// Draws one of the four faces, each equally likely.
    pub fn draw(rng: &mut ThreadRng) -> (r: Dreidel)
        ensures
            exists|i: int| 0 <= i < 4 && r == Dreidel::face(i),
    {
        let faces: Vec<Dreidel> = vec![Dreidel::Nun, Dreidel::Gimel, Dreidel::He, Dreidel::Shin];
        let i = pick_below(rng, faces.len());
        assert(faces@[i as int] == Dreidel::face(i as int));
        faces[i]
    }

    /// Draws a face and applies it to the spinner's stake and the pot.
    pub fn spin(rng: &mut ThreadRng, stake: &mut usize, pot: &mut usize) -> (r: Dreidel)
        requires
            *old(stake) + *old(pot) <= usize::MAX,
        ensures
            (*final(stake) as int, *final(pot) as int) == resolve(r, *old(stake) as int, *old(pot) as int),
    {
        let result = Dreidel::draw(rng);
        result.handle(stake, pot);
        result
    }

    /// Applies this face to the spinner's stake and the pot.
    pub fn handle(&self, stake: &mut usize, pot: &mut usize)
        requires
            *old(stake) + *old(pot) <= usize::MAX,
        ensures
            (*final(stake) as int, *final(pot) as int) == resolve(*self, *old(stake) as int, *old(pot) as int),
    {
        match *self {
            Dreidel::Nun => {},
            Dreidel::Gimel => {
                *stake = *stake + *pot;
                *pot = 0;
            },
            Dreidel::He => {
                if *pot > 0 {
                    let amount_to_transfer: usize = *pot / 2 + *pot % 2;
                    *stake = *stake + amount_to_transfer;
                    *pot = *pot - amount_to_transfer;
                }
            },
            Dreidel::Shin => {
                if *stake > 0 {
                    *stake = *stake - 1;
                    *pot = *pot + 1;
                }
            },
        }
    }
}

} // verus!
