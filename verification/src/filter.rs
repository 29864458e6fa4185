//! What a seed is searched for.
use vstd::prelude::*;

verus! {

/// One condition on a seed.
#[derive(Debug)]
pub enum Clause {
    /// The shop of an ante offers a joker, in one of its slots up to `slot`; a `slot` of 255
    /// stands for the first sixteen slots.
    AnteShopHasJoker {
        ante: u8,
        slot: u8,
        joker: String,
        edition: Option<String>,
        sticker: Option<String>,
    },
    /// The tag of a blind of an ante, the small blind at position 0.
    AnteTagIs { ante: u8, position: u8, tag: String },
    /// The boss of an ante.
    AnteBossIs { ante: u8, boss: String },
    /// The voucher of an ante.
    VoucherIs { ante: u8, voucher: String },
    /// One booster pack of an ante holds a card.
    AntePackContains { ante: u8, pack_index: u8, card: String },
    /// Any of the first booster packs of an ante holds a card.
    AnteAnyPackContains { ante: u8, max_packs: u8, card: String },
    /// The first Soul among the first booster packs of an ante makes a legendary joker.
    AnteSoulIs { ante: u8, max_packs: u8, joker: String },
    /// The first Wraith among the first booster packs of an ante makes a rare joker.
    AnteWraithIs { ante: u8, max_packs: u8, joker: String },
    /// Any of the first booster packs of an ante holds a playing card; an empty `base` stands
    /// for every card.
    AnteStandardCardIs {
        ante: u8,
        max_packs: u8,
        base: String,
        enhancement: Option<String>,
        edition: Option<String>,
        seal: Option<String>,
    },
    /// Any of the clauses holds.
    AnyOf { clauses: Vec<Clause> },
}

/// The conditions that a seed must meet.
#[derive(Debug)]
pub struct Filter {
    pub clauses: Vec<Clause>,
}

impl Default for Filter {
    /// The filter without any condition.
    fn default() -> (res: Filter)
        ensures
            res.clauses@ == Seq::<Clause>::empty(),
    {
        Filter { clauses: Vec::new() }
    }
}

} // verus!
