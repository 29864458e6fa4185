//! What a run of the game hands out: shop slots, booster packs and their cards.
use vstd::prelude::*;

use crate::text;

verus! {

/// The kind of an item in the shop.
#[derive(Clone, Copy, Debug, PartialEq, Eq, Structural)]
pub enum ShopItemType {
    Joker,
    Tarot,
    Planet,
    PlayingCard,
    Spectral,
}

/// The edition of a joker or of a playing card.
#[derive(Clone, Copy, Debug, PartialEq, Eq, Structural)]
pub enum Edition {
    NoEdition,
    Foil,
    Holographic,
    Polychrome,
    Negative,
}

/// The rarity of a joker.
#[derive(Clone, Copy, Debug, PartialEq, Eq, Structural)]
pub enum Rarity {
    Common,
    Uncommon,
    Rare,
    Legendary,
}

/// The seal of a playing card.
#[derive(Clone, Copy, Debug, PartialEq, Eq, Structural)]
pub enum Seal {
    NoSeal,
    Red,
    Blue,
    Gold,
    Purple,
}

/// The stickers of a joker.
#[derive(Clone, Copy, Debug, PartialEq, Eq, Structural)]
pub struct Stickers {
    pub eternal: bool,
    pub perishable: bool,
    pub rental: bool,
}

/// One slot of the shop.
#[derive(Debug)]
pub struct ShopSlot {
    pub kind: ShopItemType,
    pub item: String,
    pub edition: Edition,
    pub rarity: Option<Rarity>,
    pub stickers: Stickers,
}

/// A playing card out of a booster pack.
#[derive(Debug)]
pub struct StandardCard {
    pub base: String,
    pub enhancement: Option<String>,
    pub edition: Edition,
    pub seal: Seal,
}

/// What a booster pack holds.
#[derive(Debug)]
pub enum PackContents {
    Tarots(Vec<String>),
    Planets(Vec<String>),
    Spectrals(Vec<String>),
    Jokers(Vec<String>),
    StandardCards(Vec<StandardCard>),
    Standard,
    Unknown,
}

/// The name of a kind of item.
pub open spec fn shop_kind_label(kind: ShopItemType) -> Seq<char> {
    match kind {
        ShopItemType::Joker => "Joker"@,
        ShopItemType::Tarot => "Tarot"@,
        ShopItemType::Planet => "Planet"@,
        ShopItemType::PlayingCard => "Playing Card"@,
        ShopItemType::Spectral => "Spectral"@,
    }
}

/// The name of a kind of item.
pub fn shop_kind_name(kind: ShopItemType) -> (res: &'static str)
    ensures
        res@ == shop_kind_label(kind),
{
    match kind {
        ShopItemType::Joker => "Joker",
        ShopItemType::Tarot => "Tarot",
        ShopItemType::Planet => "Planet",
        ShopItemType::PlayingCard => "Playing Card",
        ShopItemType::Spectral => "Spectral",
    }
}

/// The name of a rarity.
pub open spec fn rarity_label(rarity: Rarity) -> Seq<char> {
    match rarity {
        Rarity::Common => "Common"@,
        Rarity::Uncommon => "Uncommon"@,
        Rarity::Rare => "Rare"@,
        Rarity::Legendary => "Legendary"@,
    }
}

/// The name of a rarity.
pub fn rarity_name(rarity: Rarity) -> (res: &'static str)
    ensures
        res@ == rarity_label(rarity),
{
    match rarity {
        Rarity::Common => "Common",
        Rarity::Uncommon => "Uncommon",
        Rarity::Rare => "Rare",
        Rarity::Legendary => "Legendary",
    }
}

/// The name of an edition; empty for no edition.
pub open spec fn edition_label(e: Edition) -> Seq<char> {
    match e {
        Edition::NoEdition => ""@,
        Edition::Foil => "Foil"@,
        Edition::Holographic => "Holographic"@,
        Edition::Polychrome => "Polychrome"@,
        Edition::Negative => "Negative"@,
    }
}

/// The name of an edition; empty for no edition.
pub fn edition_name(e: Edition) -> (res: &'static str)
    ensures
        res@ == edition_label(e),
{
    match e {
        Edition::NoEdition => "",
        Edition::Foil => "Foil",
        Edition::Holographic => "Holographic",
        Edition::Polychrome => "Polychrome",
        Edition::Negative => "Negative",
    }
}

/// The name of a seal in lower case; empty for no seal.
pub open spec fn seal_label(seal: Seal) -> Seq<char> {
    match seal {
        Seal::NoSeal => ""@,
        Seal::Red => "red"@,
        Seal::Blue => "blue"@,
        Seal::Gold => "gold"@,
        Seal::Purple => "purple"@,
    }
}

/// The name of a seal in lower case; empty for no seal.
pub fn seal_name(seal: Seal) -> (res: &'static str)
    ensures
        res@ == seal_label(seal),
{
    match seal {
        Seal::NoSeal => "",
        Seal::Red => "red",
        Seal::Blue => "blue",
        Seal::Gold => "gold",
        Seal::Purple => "purple",
    }
}

/// The names of the items in a pack, if it is a pack of named items.
pub open spec fn item_names(c: PackContents) -> Seq<Seq<char>> {
    match c {
        PackContents::Tarots(v) => names(v@),
        PackContents::Planets(v) => names(v@),
        PackContents::Spectrals(v) => names(v@),
        PackContents::Jokers(v) => names(v@),
        _ => Seq::empty(),
    }
}

/// The base cards in a pack, if it is a pack of playing cards.
pub open spec fn base_cards(c: PackContents) -> Seq<Seq<char>> {
    match c {
        PackContents::StandardCards(cards) => bases(cards@),
        _ => Seq::empty(),
    }
}

/// All that a pack shows: the items' names, or the base cards.
pub open spec fn shown(c: PackContents) -> Seq<Seq<char>> {
    item_names(c) + base_cards(c)
}

/// The characters of each string.
pub open spec fn names(v: Seq<String>) -> Seq<Seq<char>> {
    v.map_values(|s: String| s@)
}

/// The base of each card.
pub open spec fn bases(v: Seq<StandardCard>) -> Seq<Seq<char>> {
    v.map_values(|c: StandardCard| c.base@)
}

/// Whether one of the names is `want`.
fn any_name(v: &Vec<String>, want: &str) -> (res: bool)
    ensures
        res == names(v@).contains(want@),
{
    let mut i: usize = 0;
    while i < v.len()
        invariant
            i <= v.len(),
            forall|j: int| 0 <= j < i ==> names(v@)[j] != want@,
        decreases v.len() - i,
    {
        if text::same_text(v[i].as_str(), want) {
            assert(names(v@)[i as int] == want@);
            return true;
        }
        i += 1;
    }
    false
}

/// Whether one of the cards has the base `want`.
fn any_base(v: &Vec<StandardCard>, want: &str) -> (res: bool)
    ensures
        res == bases(v@).contains(want@),
{
    let mut i: usize = 0;
    while i < v.len()
        invariant
            i <= v.len(),
            forall|j: int| 0 <= j < i ==> bases(v@)[j] != want@,
        decreases v.len() - i,
    {
        if text::same_text(v[i].base.as_str(), want) {
            assert(bases(v@)[i as int] == want@);
            return true;
        }
        i += 1;
    }
    false
}

/// Whether a pack shows `want`, as an item or as a playing card.
pub fn pack_contents_contains(c: &PackContents, want: &str) -> (res: bool)
    ensures
        res == shown(*c).contains(want@),
{
    proof {
        assert(item_names(*c) + Seq::<Seq<char>>::empty() =~= item_names(*c));
        assert(Seq::<Seq<char>>::empty() + base_cards(*c) =~= base_cards(*c));
    }
    match c {
        PackContents::Tarots(v) => any_name(v, want),
        PackContents::Planets(v) => any_name(v, want),
        PackContents::Spectrals(v) => any_name(v, want),
        PackContents::Jokers(v) => any_name(v, want),
        PackContents::StandardCards(cards) => any_base(cards, want),
        _ => false,
    }
}

/// Whether a pack holds the item `want`; playing cards are no items.
pub fn pack_has_item(c: &PackContents, want: &str) -> (res: bool)
    ensures
        res == item_names(*c).contains(want@),
{
    match c {
        PackContents::Tarots(v) => any_name(v, want),
        PackContents::Planets(v) => any_name(v, want),
        PackContents::Spectrals(v) => any_name(v, want),
        PackContents::Jokers(v) => any_name(v, want),
        _ => false,
    }
}

/// What a pack holds as an item, it shows.
pub proof fn law_item_is_shown(c: PackContents, want: Seq<char>)
    ensures
        item_names(c).contains(want) ==> shown(c).contains(want),
        c !is StandardCards ==> item_names(c).contains(want) == shown(c).contains(want),
{
    if item_names(c).contains(want) {
        let i = choose|i: int| 0 <= i < item_names(c).len() && item_names(c)[i] == want;
        assert(shown(c)[i] == want);
    }
    if c !is StandardCards {
        assert(shown(c) =~= item_names(c));
    }
}

/// A pack shows the items of its list, in their order, or the bases of its playing cards; a pack
/// that was not looked into shows nothing.
pub proof fn law_shown(c: PackContents)
    ensures
        match c {
            PackContents::Tarots(v) => lists(shown(c), v@) && item_names(c) == shown(c),
            PackContents::Planets(v) => lists(shown(c), v@) && item_names(c) == shown(c),
            PackContents::Spectrals(v) => lists(shown(c), v@) && item_names(c) == shown(c),
            PackContents::Jokers(v) => lists(shown(c), v@) && item_names(c) == shown(c),
            PackContents::StandardCards(cards) => {
                &&& item_names(c).len() == 0
                &&& shown(c).len() == cards@.len()
                &&& forall|i: int| 0 <= i < cards@.len() ==> #[trigger] shown(c)[i] == cards@[i].base@
            },
            PackContents::Standard => shown(c).len() == 0 && item_names(c).len() == 0,
            PackContents::Unknown => shown(c).len() == 0 && item_names(c).len() == 0,
        },
{
    assert(item_names(c) + Seq::<Seq<char>>::empty() =~= item_names(c));
    assert(Seq::<Seq<char>>::empty() + base_cards(c) =~= base_cards(c));
}

/// Whether `list` holds the characters of the strings in `v`, one for one.
pub open spec fn lists(list: Seq<Seq<char>>, v: Seq<String>) -> bool {
    &&& list.len() == v.len()
    &&& forall|i: int| 0 <= i < v.len() ==> #[trigger] list[i] == v[i]@
}

/// The name of a kind says which kind it is.
pub proof fn law_kind_named(kind: ShopItemType)
    ensures
        shop_kind_label(kind) == "Joker"@ <==> kind == ShopItemType::Joker,
        shop_kind_label(kind) == "Tarot"@ <==> kind == ShopItemType::Tarot,
        shop_kind_label(kind) == "Planet"@ <==> kind == ShopItemType::Planet,
        shop_kind_label(kind) == "Playing Card"@ <==> kind == ShopItemType::PlayingCard,
        shop_kind_label(kind) == "Spectral"@ <==> kind == ShopItemType::Spectral,
{
    reveal_strlit("Joker");
    reveal_strlit("Tarot");
    reveal_strlit("Planet");
    reveal_strlit("Playing Card");
    reveal_strlit("Spectral");
    assert("Joker"@[0] != "Tarot"@[0]);
    assert("Playing Card"@.len() != "Planet"@.len());
    assert("Joker"@.len() == 5 && "Tarot"@.len() == 5 && "Planet"@.len() == 6);
    assert("Playing Card"@.len() == 12 && "Spectral"@.len() == 8);
}

/// The name of a rarity says which rarity it is, and none is empty.
pub proof fn law_rarity_named(rarity: Rarity)
    ensures
        rarity_label(rarity) == "Common"@ <==> rarity == Rarity::Common,
        rarity_label(rarity) == "Uncommon"@ <==> rarity == Rarity::Uncommon,
        rarity_label(rarity) == "Rare"@ <==> rarity == Rarity::Rare,
        rarity_label(rarity) == "Legendary"@ <==> rarity == Rarity::Legendary,
        rarity_label(rarity).len() > 0,
{
    reveal_strlit("Common");
    reveal_strlit("Uncommon");
    reveal_strlit("Rare");
    reveal_strlit("Legendary");
    assert("Common"@.len() == 6 && "Uncommon"@.len() == 8);
    assert("Rare"@.len() == 4 && "Legendary"@.len() == 9);
}

/// The name of an edition says which edition it is; it is empty for no edition alone.
pub proof fn law_edition_named(e: Edition)
    ensures
        edition_label(e).len() == 0 <==> e == Edition::NoEdition,
        edition_label(e) == "Foil"@ <==> e == Edition::Foil,
        edition_label(e) == "Holographic"@ <==> e == Edition::Holographic,
        edition_label(e) == "Polychrome"@ <==> e == Edition::Polychrome,
        edition_label(e) == "Negative"@ <==> e == Edition::Negative,
{
    reveal_strlit("");
    reveal_strlit("Foil");
    reveal_strlit("Holographic");
    reveal_strlit("Polychrome");
    reveal_strlit("Negative");
    assert(""@.len() == 0 && "Foil"@.len() == 4 && "Holographic"@.len() == 11);
    assert("Polychrome"@.len() == 10 && "Negative"@.len() == 8);
}

/// In any case of its letters, the name of an edition says which edition it is.
pub proof fn law_edition_in_any_case(e: Edition)
    ensures
        text::lower(edition_label(e)).len() == 0 <==> e == Edition::NoEdition,
        text::lower(edition_label(e)) == "foil"@ <==> e == Edition::Foil,
        text::lower(edition_label(e)) == "holographic"@ <==> e == Edition::Holographic,
        text::lower(edition_label(e)) == "polychrome"@ <==> e == Edition::Polychrome,
        text::lower(edition_label(e)) == "negative"@ <==> e == Edition::Negative,
{
    reveal_strlit("");
    reveal_strlit("Foil");
    reveal_strlit("Holographic");
    reveal_strlit("Polychrome");
    reveal_strlit("Negative");
    reveal_strlit("foil");
    reveal_strlit("holographic");
    reveal_strlit("polychrome");
    reveal_strlit("negative");
    assert(text::lower("Foil"@) =~= "foil"@);
    assert(text::lower("Holographic"@) =~= "holographic"@);
    assert(text::lower("Polychrome"@) =~= "polychrome"@);
    assert(text::lower("Negative"@) =~= "negative"@);
    assert("foil"@.len() == 4 && "holographic"@.len() == 11);
    assert("polychrome"@.len() == 10 && "negative"@.len() == 8);
}

/// The name of a seal says which seal it is; it is empty for no seal alone.
pub proof fn law_seal_named(seal: Seal)
    ensures
        seal_label(seal).len() == 0 <==> seal == Seal::NoSeal,
        seal_label(seal) == "red"@ <==> seal == Seal::Red,
        seal_label(seal) == "blue"@ <==> seal == Seal::Blue,
        seal_label(seal) == "gold"@ <==> seal == Seal::Gold,
        seal_label(seal) == "purple"@ <==> seal == Seal::Purple,
{
    reveal_strlit("");
    reveal_strlit("red");
    reveal_strlit("blue");
    reveal_strlit("gold");
    reveal_strlit("purple");
    assert(""@.len() == 0 && "red"@.len() == 3 && "purple"@.len() == 6);
    assert("blue"@.len() == 4 && "gold"@.len() == 4);
    assert("blue"@[0] != "gold"@[0]);
}

} // verus!
