//! What a run is played with: the deck, the stake and the shape of the seeds.
use vstd::prelude::*;

verus! {

/// The starting deck of a run.
#[derive(Clone, Copy, Debug, PartialEq, Eq, Structural)]
pub enum Deck {
    Red,
    Blue,
    Yellow,
    Green,
    Black,
    Magic,
    Nebula,
    GhostDeck,
    Abandoned,
    Checkered,
    Zodiac,
    Painted,
    Anaglyph,
    Plasma,
    Erratic,
}

/// The difficulty of a run.
#[derive(Clone, Copy, Debug, PartialEq, Eq, Structural)]
pub enum Stake {
    White,
    Red,
    Green,
    Black,
    Blue,
    Purple,
    Orange,
    Gold,
}

/// What a search holds fixed: the deck, the stake, and a seed buffer with the length of the
/// seeds to try.
#[derive(Clone, Copy, Debug)]
pub struct RunConfig {
    pub deck: Deck,
    pub stake: Stake,
    pub seed: [u8; 8],
    pub seed_len: u8,
}

/// The decks in the order of their indices.
pub open spec fn decks() -> Seq<Deck> {
    seq![
        Deck::Red,
        Deck::Blue,
        Deck::Yellow,
        Deck::Green,
        Deck::Black,
        Deck::Magic,
        Deck::Nebula,
        Deck::GhostDeck,
        Deck::Abandoned,
        Deck::Checkered,
        Deck::Zodiac,
        Deck::Painted,
        Deck::Anaglyph,
        Deck::Plasma,
        Deck::Erratic,
    ]
}

/// The stakes in the order of their indices.
pub open spec fn stakes() -> Seq<Stake> {
    seq![
        Stake::White,
        Stake::Red,
        Stake::Green,
        Stake::Black,
        Stake::Blue,
        Stake::Purple,
        Stake::Orange,
        Stake::Gold,
    ]
}

/// The deck with index `i`; every index past the last stands for the last deck.
pub open spec fn deck_at(i: int) -> Deck {
    if i < decks().len() {
        decks()[i]
    } else {
        decks().last()
    }
}

/// The stake with index `i`; every index past the last stands for the last stake.
pub open spec fn stake_at(i: int) -> Stake {
    if i < stakes().len() {
        stakes()[i]
    } else {
        stakes().last()
    }
}

/// The deck that an index stands for.
pub fn deck_from_idx(i: u8) -> (res: Deck)
    ensures
        res == deck_at(i as int),
{
    match i {
        0 => Deck::Red,
        1 => Deck::Blue,
        2 => Deck::Yellow,
        3 => Deck::Green,
        4 => Deck::Black,
        5 => Deck::Magic,
        6 => Deck::Nebula,
        7 => Deck::GhostDeck,
        8 => Deck::Abandoned,
        9 => Deck::Checkered,
        10 => Deck::Zodiac,
        11 => Deck::Painted,
        12 => Deck::Anaglyph,
        13 => Deck::Plasma,
        _ => Deck::Erratic,
    }
}

/// The stake that an index stands for.
pub fn stake_from_idx(i: u8) -> (res: Stake)
    ensures
        res == stake_at(i as int),
{
    match i {
        0 => Stake::White,
        1 => Stake::Red,
        2 => Stake::Green,
        3 => Stake::Black,
        4 => Stake::Blue,
        5 => Stake::Purple,
        6 => Stake::Orange,
        _ => Stake::Gold,
    }
}

/// The index of a deck.
pub open spec fn deck_index(deck: Deck) -> int {
    match deck {
        Deck::Red => 0,
        Deck::Blue => 1,
        Deck::Yellow => 2,
        Deck::Green => 3,
        Deck::Black => 4,
        Deck::Magic => 5,
        Deck::Nebula => 6,
        Deck::GhostDeck => 7,
        Deck::Abandoned => 8,
        Deck::Checkered => 9,
        Deck::Zodiac => 10,
        Deck::Painted => 11,
        Deck::Anaglyph => 12,
        Deck::Plasma => 13,
        Deck::Erratic => 14,
    }
}

/// The index of a stake.
pub open spec fn stake_index(stake: Stake) -> int {
    match stake {
        Stake::White => 0,
        Stake::Red => 1,
        Stake::Green => 2,
        Stake::Black => 3,
        Stake::Blue => 4,
        Stake::Purple => 5,
        Stake::Orange => 6,
        Stake::Gold => 7,
    }
}

/// Every deck is at its index, every index up to the last stands for another deck, and every
/// index past the last for the last.
pub proof fn law_decks(deck: Deck, i: u8)
    ensures
        deck_at(deck_index(deck)) == deck,
        deck_index(deck_at(i as int)) == if i < 14 {
            i as int
        } else {
            14
        },
{
}

/// Every stake is at its index, every index up to the last stands for another stake, and every
/// index past the last for the last.
pub proof fn law_stakes(stake: Stake, i: u8)
    ensures
        stake_at(stake_index(stake)) == stake,
        stake_index(stake_at(i as int)) == if i < 7 {
            i as int
        } else {
            7
        },
{
}

} // verus!
