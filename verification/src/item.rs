//! The data model: tracked items, recorded decisions, and the sort direction.

use vstd::prelude::*;

verus! {

/// Which tracked media category a run operates on.
#[derive(Clone, Copy, Debug, PartialEq, Eq, Structural)]
pub enum ListType {
    Manga,
    Anime,
}

/// The finer media category a tracked item belongs to.
#[derive(Clone, Copy, Debug, PartialEq, Eq, Structural)]
pub enum ItemMediaType {
    Manga,
    Novel,
    OneShot,
    Doujinshi,
    Manhwa,
    Manhua,
}

/// How the user decided about one item during triage.
#[derive(Clone, Copy, Debug, PartialEq, Eq, Structural)]
pub enum HandledHow {
    Added,
    NotFound,
    NotFinished,
}

/// One entry of a remote tracking list. Identity is `(item_type, id)`.
#[derive(Debug, PartialEq, Eq)]
pub struct Item {
    pub item_type: ListType,
    pub id: u32,
    pub amount: i16,
    pub title: String,
    pub publishing_status: u8,
    pub url: String,
    pub media_type: ItemMediaType,
}

/// The mathematical value of an [`Item`]: strings are sequences of characters.
pub ghost struct ItemV {
    pub item_type: ListType,
    pub id: u32,
    pub amount: i16,
    pub title: Seq<char>,
    pub publishing_status: u8,
    pub url: Seq<char>,
    pub media_type: ItemMediaType,
}

impl View for Item {
    type V = ItemV;

    open spec fn view(&self) -> ItemV {
        ItemV {
            item_type: self.item_type,
            id: self.id,
            amount: self.amount,
            title: self.title@,
            publishing_status: self.publishing_status,
            url: self.url@,
            media_type: self.media_type,
        }
    }
}

/// A recorded decision about one item; it persists across runs in the ledger.
#[derive(Clone, Copy, Debug, PartialEq, Eq, Structural)]
pub struct HandledItem {
    pub item_id: u32,
    pub item_type: ListType,
    pub how: HandledHow,
}

impl Item {
    /// Turn this item into the ledger record of the given decision.
    pub fn handle(self, how: HandledHow) -> (r: HandledItem)
        ensures
            r == (HandledItem { item_id: self.id, item_type: self.item_type, how }),
    {
        HandledItem { item_id: self.id, item_type: self.item_type, how }
    }
}

/// Direction in which the working list is ordered by progress count.
#[derive(Clone, Copy, Debug, PartialEq, Eq, Structural)]
pub enum Sort {
    Asc,
    Desc,
}

impl Sort {
    /// The sign that multiplies the progress count when ordering a list.
    pub open spec fn sign(self) -> i16 {
        match self {
            Sort::Asc => 1 as i16,
            Sort::Desc => -1 as i16,
        }
    }

    pub fn value(self) -> (r: i16)
        ensures
            r == self.sign(),
    {
        match self {
            Sort::Asc => 1,
            Sort::Desc => -1,
        }
    }
}

} // verus!
