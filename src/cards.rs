use vstd::prelude::*;

use crate::types::{CardId, CardMetadata};

verus! {

/// Source of card metadata, keyed by card identifier.
pub trait CardDataProvider {
    /// What the provider holds for `card_id`.
    spec fn spec_card(&self, card_id: CardId) -> Option<CardMetadata>;

    /// Looks up `card_id`; `None` when the provider does not know it.
    fn get_card_metadata(&self, card_id: CardId) -> (r: Option<CardMetadata>)
        ensures
            r == self.spec_card(card_id),
    ;
}

/// A card catalog held in memory: the first entry with a matching id wins.
pub struct CardCatalog {
    pub cards: Vec<CardMetadata>,
}

/// The first card of `cards` whose id is `card_id`.
pub open spec fn catalog_lookup(cards: Seq<CardMetadata>, card_id: CardId) -> Option<CardMetadata>
    decreases cards.len(),
{
    if cards.len() == 0 {
        None
    } else if cards[0].id == card_id {
        Some(cards[0])
    } else {
        catalog_lookup(cards.drop_first(), card_id)
    }
}

impl CardCatalog {
    pub fn new(cards: Vec<CardMetadata>) -> (r: CardCatalog)
        ensures
            r.cards@ == cards@,
    {
        CardCatalog { cards }
    }
}

impl CardDataProvider for CardCatalog {
    open spec fn spec_card(&self, card_id: CardId) -> Option<CardMetadata> {
        catalog_lookup(self.cards@, card_id)
    }

    fn get_card_metadata(&self, card_id: CardId) -> (r: Option<CardMetadata>) {
        let mut i: usize = 0;
        assert(self.cards@.subrange(0, self.cards@.len() as int) =~= self.cards@);
        while i < self.cards.len()
            invariant
                i <= self.cards@.len(),
                catalog_lookup(self.cards@, card_id) == catalog_lookup(
                    self.cards@.subrange(i as int, self.cards@.len() as int),
                    card_id,
                ),
            decreases self.cards@.len() - i,
        {
            proof {
                let rest = self.cards@.subrange(i as int, self.cards@.len() as int);
                assert(rest.drop_first() =~= self.cards@.subrange(i + 1, self.cards@.len() as int));
            }
            if self.cards[i].id == card_id {
                return Some(self.cards[i]);
            }
            i = i + 1;
        }
        None
    }
}

} // verus!
