//! One marketplace listing as received from the feed, with its decoded item
//! record attached. Timestamps are kept as the epoch milliseconds the wire
//! carries.

use vstd::prelude::*;

use crate::item::{ItemData, ItemDataV};

verus! {

/// One bid of a listing's bid history.
#[derive(Debug, Clone)]
pub struct BidEntry {
    pub auction_id: String,
    pub bidder: String,
    pub profile_id: String,
    pub amount: i64,
    /// Epoch milliseconds.
    pub timestamp: i64,
}

/// The view of [`BidEntry`].
#[verifier::ext_equal]
pub struct BidEntryV {
    pub auction_id: Seq<char>,
    pub bidder: Seq<char>,
    pub profile_id: Seq<char>,
    pub amount: i64,
    pub timestamp: i64,
}

impl View for BidEntry {
    type V = BidEntryV;

    open spec fn view(&self) -> BidEntryV {
        BidEntryV {
            auction_id: self.auction_id@,
            bidder: self.bidder@,
            profile_id: self.profile_id@,
            amount: self.amount,
            timestamp: self.timestamp,
        }
    }
}

/// One listing: identifiers, timing, price and bid state, display strings,
/// and the item record decoded from its blob — `None` for the rare feed
/// state with no item attached, or when the blob failed to decode and the
/// caller chose to keep the listing.
#[derive(Debug, Clone)]
pub struct Auction {
    pub uuid: String,
    pub auctioneer: String,
    pub profile_id: String,
    pub coop: Vec<String>,
    /// Epoch milliseconds.
    pub start: i64,
    /// Epoch milliseconds.
    pub end: i64,
    pub item_name: String,
    pub item_uuid: Option<String>,
    pub item_lore: String,
    pub item_data: Option<ItemData>,
    pub extra: String,
    pub category: String,
    pub tier: String,
    pub starting_bid: i64,
    pub claimed: bool,
    pub claimed_bidders: Vec<String>,
    pub highest_bid_amount: i64,
    /// Epoch milliseconds.
    pub last_updated: i64,
    pub bin: bool,
    pub bids: Vec<BidEntry>,
}

/// The view of [`Auction`].
#[verifier::ext_equal]
pub struct AuctionV {
    pub uuid: Seq<char>,
    pub auctioneer: Seq<char>,
    pub profile_id: Seq<char>,
    pub coop: Seq<Seq<char>>,
    pub start: i64,
    pub end: i64,
    pub item_name: Seq<char>,
    pub item_uuid: Option<Seq<char>>,
    pub item_lore: Seq<char>,
    pub item_data: Option<ItemDataV>,
    pub extra: Seq<char>,
    pub category: Seq<char>,
    pub tier: Seq<char>,
    pub starting_bid: i64,
    pub claimed: bool,
    pub claimed_bidders: Seq<Seq<char>>,
    pub highest_bid_amount: i64,
    pub last_updated: i64,
    pub bin: bool,
    pub bids: Seq<BidEntryV>,
}

/// The view of an optional item record.
pub open spec fn opt_item_view(o: Option<ItemData>) -> Option<ItemDataV> {
    match o {
        Some(d) => Some(d@),
        None => None,
    }
}

impl View for Auction {
    type V = AuctionV;

    open spec fn view(&self) -> AuctionV {
        AuctionV {
            uuid: self.uuid@,
            auctioneer: self.auctioneer@,
            profile_id: self.profile_id@,
            coop: self.coop@.map_values(|s: String| s@),
            start: self.start,
            end: self.end,
            item_name: self.item_name@,
            item_uuid: crate::item::opt_text_view(self.item_uuid),
            item_lore: self.item_lore@,
            item_data: opt_item_view(self.item_data),
            extra: self.extra@,
            category: self.category@,
            tier: self.tier@,
            starting_bid: self.starting_bid,
            claimed: self.claimed,
            claimed_bidders: self.claimed_bidders@.map_values(|s: String| s@),
            highest_bid_amount: self.highest_bid_amount,
            last_updated: self.last_updated,
            bin: self.bin,
            bids: self.bids@.map_values(|b: BidEntry| b@),
        }
    }
}

} // verus!
