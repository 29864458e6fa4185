//! What a wish means: which jokers in the shop and which playing cards meet it.
use vstd::prelude::*;

use crate::draws;
use crate::draws::Edition;
use crate::draws::PackContents;
use crate::draws::Seal;
use crate::draws::ShopSlot;
use crate::draws::StandardCard;
use crate::draws::Stickers;
use crate::inspect;
use crate::inspect::Wish;
use crate::meaning;
use crate::text;

verus! {

// ---------------------------------------------------------------------------
// Jokers
// ---------------------------------------------------------------------------

proof fn lemma_sticker_names()
    ensures
        "eternal"@ != "perishable"@,
        "eternal"@ != "rental"@,
        "perishable"@ != "rental"@,
{
    reveal_strlit("eternal");
    reveal_strlit("perishable");
    reveal_strlit("rental");
    assert("eternal"@.len() == 7 && "perishable"@.len() == 10 && "rental"@.len() == 6);
}

/// A joker has a sticker that is named, in any case of the letters, exactly where it bears it:
/// each of the three names asks for the sticker of that name and for no other. Any other name
/// asks for nothing.
pub proof fn law_sticker(wanted: Seq<char>, stickers: Stickers)
    ensures
        text::lower(wanted) == "eternal"@ ==> inspect::sticker_met(wanted, stickers)
            == stickers.eternal,
        text::lower(wanted) == "perishable"@ ==> inspect::sticker_met(wanted, stickers)
            == stickers.perishable,
        text::lower(wanted) == "rental"@ ==> inspect::sticker_met(wanted, stickers)
            == stickers.rental,
        !inspect::sticker_met(wanted, stickers) ==> {
            ||| text::lower(wanted) == "eternal"@
            ||| text::lower(wanted) == "perishable"@
            ||| text::lower(wanted) == "rental"@
        },
{
    lemma_sticker_names();
}

/// Without a wish for an edition or a sticker, a slot offers the joker exactly where it holds a
/// joker of that name.
pub proof fn law_joker_named(slot: ShopSlot, joker: Seq<char>)
    ensures
        inspect::slot_meets(slot, joker, None, None) <==> slot.kind is Joker && slot.item@ == joker,
{
}

/// A wish for an edition leaves out the slots of any other edition and no more: the edition is
/// the one that is named, in any case of the letters, and the empty name stands for none.
pub proof fn law_joker_edition(
    slot: ShopSlot,
    joker: Seq<char>,
    edition: String,
    sticker: Option<String>,
)
    ensures
        inspect::slot_meets(slot, joker, Some(edition), sticker) ==> inspect::slot_meets(
            slot,
            joker,
            None,
            sticker,
        ),
        inspect::slot_meets(slot, joker, None, sticker) ==> (inspect::slot_meets(
            slot,
            joker,
            Some(edition),
            sticker,
        ) <==> edition_is(edition@, slot.edition)),
{
    lemma_edition(edition@, slot.edition);
}

/// Whether an edition is the one that a text names, in any case of the letters.
pub open spec fn edition_is(name: Seq<char>, edition: Edition) -> bool {
    let word = text::lower(name);
    ||| edition is NoEdition && word.len() == 0
    ||| edition is Foil && word == "foil"@
    ||| edition is Holographic && word == "holographic"@
    ||| edition is Polychrome && word == "polychrome"@
    ||| edition is Negative && word == "negative"@
}

proof fn lemma_edition(name: Seq<char>, edition: Edition)
    ensures
        text::lower(name) == text::lower(draws::edition_label(edition)) <==> edition_is(
            name,
            edition,
        ),
{
    draws::law_edition_in_any_case(edition);
    if edition is NoEdition && text::lower(name).len() == 0 {
        assert(text::lower(name) =~= text::lower(draws::edition_label(edition)));
    }
}

/// A wish for a sticker leaves out the slots whose joker does not bear it and no more.
pub proof fn law_joker_sticker(
    slot: ShopSlot,
    joker: Seq<char>,
    edition: Option<String>,
    sticker: String,
)
    ensures
        inspect::slot_meets(slot, joker, edition, Some(sticker)) ==> {
            &&& inspect::slot_meets(slot, joker, edition, None)
            &&& text::lower(sticker@) == "eternal"@ ==> slot.stickers.eternal
            &&& text::lower(sticker@) == "perishable"@ ==> slot.stickers.perishable
            &&& text::lower(sticker@) == "rental"@ ==> slot.stickers.rental
        },
        inspect::slot_meets(slot, joker, edition, None) && !inspect::slot_meets(
            slot,
            joker,
            edition,
            Some(sticker),
        ) ==> {
            ||| text::lower(sticker@) == "eternal"@ && !slot.stickers.eternal
            ||| text::lower(sticker@) == "perishable"@ && !slot.stickers.perishable
            ||| text::lower(sticker@) == "rental"@ && !slot.stickers.rental
        },
{
    law_sticker(sticker@, slot.stickers);
}

// ---------------------------------------------------------------------------
// Playing cards
// ---------------------------------------------------------------------------

/// Without any wish, every card is wanted.
pub proof fn law_any_card(card: StandardCard, wish: Wish)
    requires
        wish.base.len() == 0,
        wish.enhancement is None,
        wish.edition is None,
        wish.seal is None,
    ensures
        inspect::card_meets(card, wish),
{
}

/// A wish for a base leaves out the cards of any other base and no more.
pub proof fn law_card_base(card: StandardCard, wish: Wish, any: Wish)
    requires
        wish.base.len() > 0,
        any == (Wish { base: Seq::empty(), ..wish }),
    ensures
        inspect::card_meets(card, wish) <==> inspect::card_meets(card, any) && card.base@
            == wish.base,
{
}

/// A wish for an enhancement leaves out the cards without any and those of any other, whose names
/// differ by more than the case of their letters, and no more.
pub proof fn law_card_enhancement(card: StandardCard, wish: Wish, any: Wish, wanted: String)
    requires
        wish.enhancement == Some(wanted),
        any == (Wish { enhancement: None, ..wish }),
    ensures
        inspect::card_meets(card, wish) <==> {
            &&& inspect::card_meets(card, any)
            &&& card.enhancement is Some
            &&& text::lower(card.enhancement->0@) == text::lower(wanted@)
        },
{
}

/// A wish for an edition leaves out the cards of any other edition and no more.
pub proof fn law_card_edition(card: StandardCard, wish: Wish, any: Wish, wanted: String)
    requires
        wish.edition == Some(wanted),
        any == (Wish { edition: None, ..wish }),
    ensures
        inspect::card_meets(card, wish) <==> inspect::card_meets(card, any) && edition_is(
            wanted@,
            card.edition,
        ),
{
    lemma_edition(wanted@, card.edition);
}

/// Whether a text is a word, in any case of the letters, perhaps with "seal" behind it.
pub open spec fn is_seal_word(name: Seq<char>, word: Seq<char>) -> bool {
    exists|k: nat| text::lower(name) == word + #[trigger] text::repeated(" seal"@, k)
}

/// Whether a seal is the one that a text names, in any case of the letters, with or without
/// "seal" behind it.
pub open spec fn seal_is(name: Seq<char>, seal: Seal) -> bool {
    ||| seal is NoSeal && is_seal_word(name, Seq::empty())
    ||| seal is Red && is_seal_word(name, "red"@)
    ||| seal is Blue && is_seal_word(name, "blue"@)
    ||| seal is Gold && is_seal_word(name, "gold"@)
    ||| seal is Purple && is_seal_word(name, "purple"@)
}

proof fn lemma_seal_word(name: Seq<char>, word: Seq<char>)
    requires
        !text::ends_with(word, " seal"@),
    ensures
        word == text::trimmed(text::lower(name), " seal"@) <==> is_seal_word(name, word),
{
    reveal_strlit(" seal");
    let low = text::lower(name);
    text::law_trimmed(low, " seal"@);
    if is_seal_word(name, word) {
        let k = choose|k: nat| low == word + #[trigger] text::repeated(" seal"@, k);
        text::law_trimmed_keeps(word, " seal"@, k);
    }
}

proof fn lemma_no_seal_behind(word: Seq<char>)
    requires
        word.len() < 5 || word.last() != 'l',
    ensures
        !text::ends_with(word, " seal"@),
{
    reveal_strlit(" seal");
    if text::ends_with(word, " seal"@) {
        let front = choose|front: Seq<char>| word == #[trigger] (front + " seal"@);
        assert(word.last() == " seal"@[4]);
    }
}

proof fn lemma_seal(name: Seq<char>, seal: Seal)
    ensures
        draws::seal_label(seal) == text::trimmed(text::lower(name), " seal"@) <==> seal_is(
            name,
            seal,
        ),
{
    let word = draws::seal_label(seal);
    draws::law_seal_named(seal);
    reveal_strlit("red");
    reveal_strlit("blue");
    reveal_strlit("gold");
    reveal_strlit("purple");
    if seal is NoSeal {
        assert(word =~= Seq::empty());
    }
    lemma_no_seal_behind(word);
    lemma_seal_word(name, word);
}

/// A wish for a seal leaves out the cards without that seal and no more, whatever else is wanted:
/// a card that is wanted bears the seal that is named.
pub proof fn law_card_seal(card: StandardCard, wish: Wish, any: Wish, wanted: String)
    requires
        wish.seal == Some(wanted),
        any == (Wish { seal: None, ..wish }),
    ensures
        inspect::card_meets(card, wish) <==> inspect::card_meets(card, any) && seal_is(
            wanted@,
            card.seal,
        ),
{
    lemma_seal(wanted@, card.seal);
}

/// A text names one seal at most.
pub proof fn law_one_seal(name: Seq<char>, a: Seal, b: Seal)
    requires
        seal_is(name, a),
        seal_is(name, b),
    ensures
        a == b,
{
    lemma_seal(name, a);
    lemma_seal(name, b);
    draws::law_seal_named(a);
    draws::law_seal_named(b);
}

/// The name of a seal alone, and the name with "seal" behind it, name that seal.
pub proof fn law_seal_words(name: Seq<char>)
    ensures
        text::lower(name) == "red"@ || text::lower(name) == "red"@ + " seal"@ ==> seal_is(
            name,
            Seal::Red,
        ),
        text::lower(name) == "blue"@ || text::lower(name) == "blue"@ + " seal"@ ==> seal_is(
            name,
            Seal::Blue,
        ),
        text::lower(name) == "gold"@ || text::lower(name) == "gold"@ + " seal"@ ==> seal_is(
            name,
            Seal::Gold,
        ),
        text::lower(name) == "purple"@ || text::lower(name) == "purple"@ + " seal"@ ==> seal_is(
            name,
            Seal::Purple,
        ),
{
    lemma_once_or_not("red"@);
    lemma_once_or_not("blue"@);
    lemma_once_or_not("gold"@);
    lemma_once_or_not("purple"@);
}

proof fn lemma_once_or_not(word: Seq<char>)
    ensures
        word == word + text::repeated(" seal"@, 0),
        word + " seal"@ == word + text::repeated(" seal"@, 1),
{
    reveal_with_fuel(text::repeated, 2);
    assert(word =~= word + text::repeated(" seal"@, 0));
    assert(word + " seal"@ =~= word + text::repeated(" seal"@, 1));
}

/// The card of a booster pack that decides is the first of its playing cards that is wanted; a
/// pack of anything else has none.
pub proof fn law_first_in_pack(contents: PackContents, wish: Wish)
    ensures
        match inspect::first_in_pack(contents, wish) {
            Some(k) => {
                &&& contents matches PackContents::StandardCards(cards)
                &&& k < cards@.len()
                &&& inspect::card_meets(cards@[k as int], wish)
                &&& forall|j: int| 0 <= j < k ==> !inspect::card_meets(#[trigger] cards@[j], wish)
                &&& inspect::base_in_pack(contents, k) == cards@[k as int].base@
            },
            None => contents matches PackContents::StandardCards(cards) ==> forall|j: int|
                0 <= j < cards@.len() ==> !inspect::card_meets(#[trigger] cards@[j], wish),
        },
{
    if let PackContents::StandardCards(cards) = contents {
        meaning::law_first_card(cards@, wish, 0);
    }
}

/// The joker of a slot is followed by its edition, unless it has none, and by its stickers, each
/// in brackets.
pub proof fn law_extras(slot: ShopSlot)
    ensures
        inspect::extras_text(slot) == (match slot.edition {
            Edition::NoEdition => Seq::empty(),
            Edition::Foil => " [Foil]"@,
            Edition::Holographic => " [Holographic]"@,
            Edition::Polychrome => " [Polychrome]"@,
            Edition::Negative => " [Negative]"@,
        }) + (if slot.stickers.eternal {
            " [Eternal]"@
        } else {
            Seq::empty()
        }) + (if slot.stickers.perishable {
            " [Perishable]"@
        } else {
            Seq::empty()
        }) + (if slot.stickers.rental {
            " [Rental]"@
        } else {
            Seq::empty()
        }),
{
    reveal_strlit(" [");
    reveal_strlit("]");
    reveal_strlit("Foil");
    reveal_strlit("Holographic");
    reveal_strlit("Polychrome");
    reveal_strlit("Negative");
    reveal_strlit(" [Foil]");
    reveal_strlit(" [Holographic]");
    reveal_strlit(" [Polychrome]");
    reveal_strlit(" [Negative]");
    assert(" ["@ + "Foil"@ + "]"@ =~= " [Foil]"@);
    assert(" ["@ + "Holographic"@ + "]"@ =~= " [Holographic]"@);
    assert(" ["@ + "Polychrome"@ + "]"@ =~= " [Polychrome]"@);
    assert(" ["@ + "Negative"@ + "]"@ =~= " [Negative]"@);
}

} // verus!
