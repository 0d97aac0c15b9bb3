//! The table of contents: one entry per heading, in reading order.
use vstd::prelude::*;

verus! {

/// An entry of the table of contents.
pub struct SummaryItem {
    pub level: u32,
    pub anchor: String,
    pub name: String,
}

/// The view of a [`SummaryItem`].
pub ghost struct SummaryEntry {
    pub level: nat,
    pub anchor: Seq<char>,
    pub name: Seq<char>,
}

impl View for SummaryItem {
    type V = SummaryEntry;

    open spec fn view(&self) -> SummaryEntry {
        SummaryEntry { level: self.level as nat, anchor: self.anchor@, name: self.name@ }
    }
}

/// The views of a sequence of items, one for one.
pub open spec fn entries_of(items: Seq<SummaryItem>) -> Seq<SummaryEntry> {
    Seq::new(items.len(), |i: int| items[i]@)
}

} // verus!
