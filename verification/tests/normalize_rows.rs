//! Normalization: totality, canonical map rendering, the gem split, color
//! parsing, pet degradation, and the write-path conflict policy.

use ah_scraper::auction::Auction as Listing;
use ah_scraper::errors::DecodeError;
use ah_scraper::item::{ExtraAttributes, DisplayInfo, Gem, ItemData, SlottedGem, Tag};
use ah_scraper::models::Auction as Row;
use ah_scraper::pet::json_number_to_i32;
use ah_scraper::text::{parse_color, parse_i32_digits};

fn empty_bag(id: &str) -> ExtraAttributes {
    ExtraAttributes {
        id: id.to_string(),
        uuid: None,
        timestamp: None,
        rarity_upgrades: None,
        modifier: None,
        upgrade_level: None,
        hot_potato_count: None,
        enchantments: None,
        gems: None,
        dungeon_item_level: None,
        dungeon_item: None,
        origin_tag: None,
        color: None,
        anvil_uses: None,
        pelts_earned: None,
        champion_combat_xp: None,
        farmed_cultivating: None,
        compact_blocks: None,
        hecatomb_s_runs: None,
        expertise_kills: None,
        farming_for_dummies_count: None,
        runes: None,
        pet_info: None,
        raffle_year: None,
        raffle_win: None,
        dye_item: None,
    }
}

fn item_with_bag(bag: ExtraAttributes) -> ItemData {
    ItemData {
        id: 267,
        count: 1,
        damage: 0,
        tag: Tag {
            ench: None,
            unbreakable: None,
            hide_flags: None,
            display: DisplayInfo {
                lore: vec!["lore".to_string()],
                color: None,
                name: "Sword".to_string(),
            },
            extra_attributes: bag,
        },
    }
}

fn listing(item: Option<ItemData>) -> Listing {
    Listing {
        uuid: "auction-1".to_string(),
        auctioneer: "seller".to_string(),
        profile_id: "profile".to_string(),
        coop: vec!["coop-mate".to_string()],
        start: 1_700_000_000_000,
        end: 1_700_000_600_000,
        item_name: "Sword".to_string(),
        item_uuid: None,
        item_lore: "lore".to_string(),
        item_data: item,
        extra: "Sword".to_string(),
        category: "weapon".to_string(),
        tier: "LEGENDARY".to_string(),
        starting_bid: 1000,
        claimed: false,
        claimed_bidders: vec![],
        highest_bid_amount: 0,
        last_updated: 1_700_000_000_000,
        bin: false,
        bids: vec![],
    }
}

#[test]
fn normalize_without_item_still_yields_full_row() {
    let row = Row::from(listing(None));
    assert_eq!(row.uuid, "auction-1");
    assert_eq!(row.coop, Some(vec!["coop-mate".to_string()]));
    assert_eq!(row.price, 1000);
    assert_eq!(row.claimed, Some(false));
    assert_eq!(row.item_lore, Some("lore".to_string()));
    assert!(row.item_id.is_none());
    assert!(row.enchantments.is_none());
    assert!(row.pet_type.is_none());
    assert!(row.red_armor_coloring.is_none());
}

#[test]
fn enchantments_render_sorted_by_name() {
    let mut bag = empty_bag("SWORD");
    bag.enchantments = Some(vec![
        ("sharpness".to_string(), 5),
        ("growth".to_string(), 250),
        ("efficiency".to_string(), 10),
        ("bane_of_arthropods".to_string(), 7),
    ]);
    let row = Row::from(listing(Some(item_with_bag(bag))));
    assert_eq!(
        row.enchantments,
        Some(vec![
            "bane_of_arthropods 7".to_string(),
            "efficiency 10".to_string(),
            "growth 250".to_string(),
            "sharpness 5".to_string(),
        ])
    );
}

#[test]
fn rendering_is_insertion_order_independent() {
    let mut bag_one = empty_bag("SWORD");
    bag_one.enchantments = Some(vec![
        ("sharpness".to_string(), 5),
        ("growth".to_string(), 250),
    ]);
    bag_one.runes = Some(vec![("MUSIC".to_string(), 3), ("BLOOD".to_string(), 1)]);
    let mut bag_two = empty_bag("SWORD");
    bag_two.enchantments = Some(vec![
        ("growth".to_string(), 250),
        ("sharpness".to_string(), 5),
    ]);
    bag_two.runes = Some(vec![("BLOOD".to_string(), 1), ("MUSIC".to_string(), 3)]);
    let row_one = Row::from(listing(Some(item_with_bag(bag_one))));
    let row_two = Row::from(listing(Some(item_with_bag(bag_two))));
    assert_eq!(row_one.enchantments, row_two.enchantments);
    assert_eq!(row_one.runes, row_two.runes);
    assert_eq!(row_one.runes, Some(vec!["BLOOD 1".to_string(), "MUSIC 3".to_string()]));
}

#[test]
fn gem_entries_partition_into_unlocked_and_slotted() {
    let mut bag = empty_bag("SWORD");
    bag.gems = Some(vec![
        (
            "unlocked_slots".to_string(),
            Gem::UnlockedSlot(vec!["COMBAT_0".to_string(), "DEFENSIVE_0".to_string()]),
        ),
        ("COMBAT_0".to_string(), Gem::SlottedGem("FINE".to_string())),
        (
            "DEFENSIVE_0".to_string(),
            Gem::SlottedGemStruct(SlottedGem {
                uuid: "gem-uuid".to_string(),
                quality: "FLAWLESS".to_string(),
            }),
        ),
    ]);
    let row = Row::from(listing(Some(item_with_bag(bag))));
    let unlocked = row.unlocked_gem_slots.unwrap();
    let slotted = row.slotted_gems.unwrap();
    assert_eq!(unlocked, vec!["COMBAT_0".to_string(), "DEFENSIVE_0".to_string()]);
    assert_eq!(
        slotted,
        vec!["COMBAT_0".to_string(), "DEFENSIVE_0 FLAWLESS".to_string()]
    );
    // three entries, one unlocked-slot entry, two slotted lines: a partition
    assert_eq!(slotted.len() + 1, 3);
}

#[test]
fn gems_present_without_unlocked_entry() {
    let mut bag = empty_bag("SWORD");
    bag.gems = Some(vec![("COMBAT_0".to_string(), Gem::SlottedGem("ROUGH".to_string()))]);
    let row = Row::from(listing(Some(item_with_bag(bag))));
    assert!(row.unlocked_gem_slots.is_none());
    assert_eq!(row.slotted_gems, Some(vec!["COMBAT_0".to_string()]));
}

#[test]
fn color_parses_three_channels() {
    assert_eq!(parse_color("255:0:128"), Some((255, 0, 128)));
    let mut bag = empty_bag("LEATHER_CHESTPLATE");
    bag.color = Some("255:0:128".to_string());
    let row = Row::from(listing(Some(item_with_bag(bag))));
    assert_eq!(row.red_armor_coloring, Some(255));
    assert_eq!(row.green_armor_coloring, Some(0));
    assert_eq!(row.blue_armor_coloring, Some(128));
}

#[test]
fn color_wrong_arity_degrades_channels_only() {
    assert_eq!(parse_color("255:0"), None);
    let mut bag = empty_bag("LEATHER_CHESTPLATE");
    bag.color = Some("255:0".to_string());
    let row = Row::from(listing(Some(item_with_bag(bag))));
    assert!(row.red_armor_coloring.is_none());
    assert!(row.green_armor_coloring.is_none());
    assert!(row.blue_armor_coloring.is_none());
    // the rest of the row is unaffected
    assert_eq!(row.item_id, Some("LEATHER_CHESTPLATE".to_string()));
    assert_eq!(row.item_count, Some(1));
}

#[test]
fn color_non_numeric_degrades_channels_only() {
    assert_eq!(parse_color("a:b:c"), None);
    let mut bag = empty_bag("LEATHER_CHESTPLATE");
    bag.color = Some("a:b:c".to_string());
    let row = Row::from(listing(Some(item_with_bag(bag))));
    assert!(row.red_armor_coloring.is_none());
    assert!(row.green_armor_coloring.is_none());
    assert!(row.blue_armor_coloring.is_none());
    assert_eq!(row.item_id, Some("LEATHER_CHESTPLATE".to_string()));
}

#[test]
fn digit_parsing_rejects_overflow_and_junk() {
    assert_eq!(parse_i32_digits("2147483647"), Some(2147483647));
    assert_eq!(parse_i32_digits("2147483648"), None);
    assert_eq!(parse_i32_digits("007"), Some(7));
    assert_eq!(parse_i32_digits(""), None);
    assert_eq!(parse_i32_digits("12a"), None);
}

#[test]
fn pet_document_fills_pet_columns() {
    let mut bag = empty_bag("PET");
    bag.pet_info = Some(
        "{\"type\":\"ENDER_DRAGON\",\"active\":true,\"exp\":12345.67,\
         \"heldItem\":\"PET_ITEM_TIER_BOOST\",\"candyUsed\":2,\"tier\":\"LEGENDARY\"}"
            .to_string(),
    );
    let row = Row::from(listing(Some(item_with_bag(bag))));
    assert_eq!(row.pet_type, Some("ENDER_DRAGON".to_string()));
    assert_eq!(row.pet_active, Some(true));
    assert_eq!(row.pet_exp, Some(12345));
    assert_eq!(row.pet_held_item, Some("PET_ITEM_TIER_BOOST".to_string()));
    assert_eq!(row.pet_candy_used, Some(2));
}

#[test]
fn malformed_pet_document_degrades_pet_columns_only() {
    let mut bag = empty_bag("PET");
    bag.pet_info = Some("this is not a pet document".to_string());
    let row = Row::from(listing(Some(item_with_bag(bag))));
    assert!(row.pet_type.is_none());
    assert!(row.pet_exp.is_none());
    assert!(row.pet_active.is_none());
    // the rest of the row is unaffected
    assert_eq!(row.item_id, Some("PET".to_string()));
    assert_eq!(row.uuid, "auction-1");
}

#[test]
fn conflict_update_touches_only_mutable_columns() {
    let first = Row::from(listing(Some(item_with_bag(empty_bag("SWORD")))));
    let mut later = listing(None);
    later.claimed = true;
    later.last_updated = 1_700_000_900_000;
    later.end = 1_700_000_800_000;
    later.starting_bid = 99999;
    let second = Row::from(later);
    let merged = Row::merged_on_conflict(first, &second);
    // mutable columns follow the later row
    assert_eq!(merged.claimed, Some(true));
    assert_eq!(merged.last_updated, 1_700_000_900_000);
    assert_eq!(merged.end_time, 1_700_000_800_000);
    // everything else keeps its first-written value
    assert_eq!(merged.price, 1000);
    assert_eq!(merged.item_id, Some("SWORD".to_string()));
    assert_eq!(merged.item_count, Some(1));
}

#[test]
fn error_descriptions_are_stable() {
    assert_eq!(DecodeError::EmptyPayload.describe(), "item wrapper list is empty");
    assert_eq!(
        DecodeError::EmbeddedDocument.describe(),
        "embedded pet document failed to decode"
    );
}

#[test]
fn pet_exp_negative_truncates_toward_zero() {
    let mut bag = empty_bag("PET");
    bag.pet_info = Some("{\"type\":\"WOLF\",\"exp\":-3.5}".to_string());
    let row = Row::from(listing(Some(item_with_bag(bag))));
    assert_eq!(row.pet_type, Some("WOLF".to_string()));
    assert_eq!(row.pet_exp, Some(-3));
}

#[test]
fn pet_exp_exponent_form_in_range() {
    let mut bag = empty_bag("PET");
    bag.pet_info = Some("{\"type\":\"WOLF\",\"exp\":5e3}".to_string());
    let row = Row::from(listing(Some(item_with_bag(bag))));
    assert_eq!(row.pet_exp, Some(5000));
}

#[test]
fn pet_exp_out_of_range_degrades_pet_only() {
    let mut bag = empty_bag("PET");
    bag.pet_info = Some("{\"type\":\"WOLF\",\"exp\":1e20}".to_string());
    let row = Row::from(listing(Some(item_with_bag(bag))));
    assert!(row.pet_type.is_none());
    assert!(row.pet_exp.is_none());
    assert_eq!(row.item_id, Some("PET".to_string()));
}

#[test]
fn pet_fractional_candy_degrades_pet_only() {
    let mut bag = empty_bag("PET");
    bag.pet_info = Some("{\"type\":\"WOLF\",\"exp\":1,\"candyUsed\":2.5}".to_string());
    let row = Row::from(listing(Some(item_with_bag(bag))));
    assert!(row.pet_type.is_none());
    assert_eq!(row.item_id, Some("PET".to_string()));
}

#[test]
fn number_integer_parts_are_exact() {
    assert_eq!(json_number_to_i32("100.5"), Ok(100));
    assert_eq!(json_number_to_i32("-3.5"), Ok(-3));
    assert_eq!(json_number_to_i32("5e3"), Ok(5000));
    assert_eq!(json_number_to_i32("1.5e-7"), Ok(0));
    assert_eq!(json_number_to_i32("0e9"), Ok(0));
    assert_eq!(json_number_to_i32("2147483647"), Ok(2147483647));
    assert_eq!(json_number_to_i32("-2147483648"), Ok(-2147483648));
    assert_eq!(json_number_to_i32("2147483648"), Err(DecodeError::OutOfRange));
    assert_eq!(json_number_to_i32("1e20"), Err(DecodeError::OutOfRange));
    assert_eq!(json_number_to_i32("junk"), Err(DecodeError::EmbeddedDocument));
    assert_eq!(json_number_to_i32(""), Err(DecodeError::EmbeddedDocument));
    assert_eq!(json_number_to_i32("1.2.3"), Err(DecodeError::EmbeddedDocument));
}
