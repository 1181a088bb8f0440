//! The flattened, storage-ready row, and the normalizer that builds it.
//!
//! Normalization is total: it never fails and never panics. Every branch
//! that could fail — the color parse, the embedded pet document — degrades
//! its own sub-fields to absent and the rest of the row proceeds. Rendered
//! map lines are sorted canonically, so repeated normalization of the same
//! logical map is byte-identical.

use vstd::prelude::*;
use vstd::string::StringExecFns;

use crate::auction::AuctionV;
use crate::item::{Gem, GemV};
use crate::pet::{PetInfo, PetInfoV};
use crate::text::{
    append_dec_u8, color_channels, dec_str, lex_leq, parse_color, sort_lines, string_views,
};

verus! {

/// One storage row: every listing scalar, the item scalars, the rendered
/// map lines, the three-way gem split, the parsed color channels, and the
/// pet sub-fields.
#[derive(Debug, Clone)]
pub struct Auction {
    pub uuid: String,
    pub auctioneer: String,
    pub profile_id: String,
    pub coop: Option<Vec<String>>,
    /// Epoch milliseconds.
    pub start_time: i64,
    /// Epoch milliseconds.
    pub end_time: i64,
    pub item_name: String,
    pub item_uuid: Option<String>,
    pub item_lore: Option<String>,
    pub item_id: Option<String>,
    pub item_count: Option<i32>,
    pub item_damage: Option<i32>,
    pub enchantments: Option<Vec<String>>,
    pub unbreakable: Option<bool>,
    pub price: i64,
    pub claimed: Option<bool>,
    pub tier: String,
    pub category: String,
    /// Epoch milliseconds.
    pub last_updated: i64,
    pub bin: bool,
    pub reforge: Option<String>,
    pub upgrade_level: Option<i32>,
    pub hot_potato_count: Option<i32>,
    pub recomb: Option<bool>,
    pub unlocked_gem_slots: Option<Vec<String>>,
    pub slotted_gems: Option<Vec<String>>,
    pub pet_active: Option<bool>,
    pub pet_type: Option<String>,
    pub pet_held_item: Option<String>,
    pub pet_exp: Option<i32>,
    pub pet_candy_used: Option<i32>,
    pub dungeon_item_level: Option<i32>,
    pub red_armor_coloring: Option<i32>,
    pub green_armor_coloring: Option<i32>,
    pub blue_armor_coloring: Option<i32>,
    pub anvil_uses: Option<i32>,
    pub pelts_earned: Option<i32>,
    pub champion_combat_xp: Option<i32>,
    pub compact_blocks: Option<i32>,
    pub hecatomb_s_runs: Option<i32>,
    pub expertise_kills: Option<i32>,
    pub runes: Option<Vec<String>>,
    pub farmed_cultivating: Option<i32>,
}

/// The view of the row.
#[verifier::ext_equal]
pub struct AuctionRowV {
    pub uuid: Seq<char>,
    pub auctioneer: Seq<char>,
    pub profile_id: Seq<char>,
    pub coop: Option<Seq<Seq<char>>>,
    pub start_time: i64,
    pub end_time: i64,
    pub item_name: Seq<char>,
    pub item_uuid: Option<Seq<char>>,
    pub item_lore: Option<Seq<char>>,
    pub item_id: Option<Seq<char>>,
    pub item_count: Option<i32>,
    pub item_damage: Option<i32>,
    pub enchantments: Option<Seq<Seq<char>>>,
    pub unbreakable: Option<bool>,
    pub price: i64,
    pub claimed: Option<bool>,
    pub tier: Seq<char>,
    pub category: Seq<char>,
    pub last_updated: i64,
    pub bin: bool,
    pub reforge: Option<Seq<char>>,
    pub upgrade_level: Option<i32>,
    pub hot_potato_count: Option<i32>,
    pub recomb: Option<bool>,
    pub unlocked_gem_slots: Option<Seq<Seq<char>>>,
    pub slotted_gems: Option<Seq<Seq<char>>>,
    pub pet_active: Option<bool>,
    pub pet_type: Option<Seq<char>>,
    pub pet_held_item: Option<Seq<char>>,
    pub pet_exp: Option<i32>,
    pub pet_candy_used: Option<i32>,
    pub dungeon_item_level: Option<i32>,
    pub red_armor_coloring: Option<i32>,
    pub green_armor_coloring: Option<i32>,
    pub blue_armor_coloring: Option<i32>,
    pub anvil_uses: Option<i32>,
    pub pelts_earned: Option<i32>,
    pub champion_combat_xp: Option<i32>,
    pub compact_blocks: Option<i32>,
    pub hecatomb_s_runs: Option<i32>,
    pub expertise_kills: Option<i32>,
    pub runes: Option<Seq<Seq<char>>>,
    pub farmed_cultivating: Option<i32>,
}

/// The view of an optional pet outcome.
pub open spec fn opt_pet_view(o: Option<PetInfo>) -> Option<PetInfoV> {
    match o {
        Some(p) => Some(p@),
        None => None,
    }
}

/// The pet outcome a listing normalizes with: the decode of its record's
/// embedded pet text, degraded to absent when the record, the text, or its
/// decode is absent or failed.
pub open spec fn pet_outcome(v: AuctionV) -> Option<PetInfoV> {
    match v.item_data {
        None => None,
        Some(d) => match crate::pet::sp_decode_pet(d.tag.extra_attributes.pet_info) {
            Ok(p) => p,
            Err(_) => None,
        },
    }
}

/// The view of an optional list of owned strings.
pub open spec fn opt_lines_view(o: Option<Vec<String>>) -> Option<Seq<Seq<char>>> {
    match o {
        Some(v) => Some(v@.map_values(|s: String| s@)),
        None => None,
    }
}

impl View for Auction {
    type V = AuctionRowV;

    open spec fn view(&self) -> AuctionRowV {
        AuctionRowV {
            uuid: self.uuid@,
            auctioneer: self.auctioneer@,
            profile_id: self.profile_id@,
            coop: opt_lines_view(self.coop),
            start_time: self.start_time,
            end_time: self.end_time,
            item_name: self.item_name@,
            item_uuid: crate::item::opt_text_view(self.item_uuid),
            item_lore: crate::item::opt_text_view(self.item_lore),
            item_id: crate::item::opt_text_view(self.item_id),
            item_count: self.item_count,
            item_damage: self.item_damage,
            enchantments: opt_lines_view(self.enchantments),
            unbreakable: self.unbreakable,
            price: self.price,
            claimed: self.claimed,
            tier: self.tier@,
            category: self.category@,
            last_updated: self.last_updated,
            bin: self.bin,
            reforge: crate::item::opt_text_view(self.reforge),
            upgrade_level: self.upgrade_level,
            hot_potato_count: self.hot_potato_count,
            recomb: self.recomb,
            unlocked_gem_slots: opt_lines_view(self.unlocked_gem_slots),
            slotted_gems: opt_lines_view(self.slotted_gems),
            pet_active: self.pet_active,
            pet_type: crate::item::opt_text_view(self.pet_type),
            pet_held_item: crate::item::opt_text_view(self.pet_held_item),
            pet_exp: self.pet_exp,
            pet_candy_used: self.pet_candy_used,
            dungeon_item_level: self.dungeon_item_level,
            red_armor_coloring: self.red_armor_coloring,
            green_armor_coloring: self.green_armor_coloring,
            blue_armor_coloring: self.blue_armor_coloring,
            anvil_uses: self.anvil_uses,
            pelts_earned: self.pelts_earned,
            champion_combat_xp: self.champion_combat_xp,
            compact_blocks: self.compact_blocks,
            hecatomb_s_runs: self.hecatomb_s_runs,
            expertise_kills: self.expertise_kills,
            runes: opt_lines_view(self.runes),
            farmed_cultivating: self.farmed_cultivating,
        }
    }
}

/// One rendered map line: `"<name> <level>"`.
pub open spec fn map_line(p: (Seq<char>, u8)) -> Seq<char> {
    p.0 + seq![' '] + dec_str(p.1 as int)
}

/// The canonical rendering of a name-to-level map: one line per entry, in
/// lexicographic order — the same logical map always renders identically,
/// whatever order its entries arrived in.
pub open spec fn rendered_map(entries: Seq<(Seq<char>, u8)>) -> Seq<Seq<char>> {
    entries.map_values(|p: (Seq<char>, u8)| map_line(p)).sort_by(lex_leq())
}

/// The lines of the slotted gem entries, in entry order: a bare slotted gem
/// renders as its slot name, a structured one as `"<name> <quality>"`;
/// unlocked-slot entries contribute nothing here.
pub open spec fn slotted_lines(entries: Seq<(Seq<char>, GemV)>) -> Seq<Seq<char>>
    decreases entries.len(),
{
    if entries.len() == 0 {
        Seq::empty()
    } else {
        let rest = slotted_lines(entries.drop_first());
        match entries[0].1 {
            GemV::UnlockedSlot(s) => rest,
            GemV::SlottedGem(q) => seq![entries[0].0] + rest,
            GemV::SlottedGemStruct(g) => seq![entries[0].0 + seq![' '] + g.quality] + rest,
        }
    }
}

/// The canonical rendering of the slotted gems: both slotted shapes merged
/// into one lexicographically ordered list.
pub open spec fn rendered_gems(entries: Seq<(Seq<char>, GemV)>) -> Seq<Seq<char>> {
    slotted_lines(entries).sort_by(lex_leq())
}

/// The slot names of the first unlocked-slot entry, in entry order; the
/// source model permits at most one such entry per item.
pub open spec fn first_unlocked(entries: Seq<(Seq<char>, GemV)>) -> Option<Seq<Seq<char>>>
    decreases entries.len(),
{
    if entries.len() == 0 {
        None
    } else {
        match entries[0].1 {
            GemV::UnlockedSlot(s) => Some(s),
            _ => first_unlocked(entries.drop_first()),
        }
    }
}

/// Saturating narrowing from the stat domain into the storage column; the
/// decoder already bounds these fields, so saturation never fires on
/// decoded records.
pub open spec fn sat_i32(x: u32) -> i32 {
    if x <= i32::MAX {
        x as i32
    } else {
        i32::MAX
    }
}

/// Optional saturating narrowing.
pub open spec fn opt_sat_i32(o: Option<u32>) -> Option<i32> {
    match o {
        Some(x) => Some(sat_i32(x)),
        None => None,
    }
}

/// Optional widening of a level into the storage column.
pub open spec fn opt_u8_i32(o: Option<u8>) -> Option<i32> {
    match o {
        Some(x) => Some(x as i32),
        None => None,
    }
}

/// The row a listing and a pet outcome flatten to. Every field is a plain
/// function of the listing's view and of the decoded pet (absent when the
/// pet document was absent or failed to decode).
pub open spec fn sp_row(v: AuctionV, pet: Option<PetInfoV>) -> AuctionRowV {
    let colors = match v.item_data {
        Some(d) => match d.tag.extra_attributes.color {
            Some(c) => color_channels(c),
            None => None,
        },
        None => None,
    };
    AuctionRowV {
        uuid: v.uuid,
        auctioneer: v.auctioneer,
        profile_id: v.profile_id,
        coop: Some(v.coop),
        start_time: v.start,
        end_time: v.end,
        item_name: v.item_name,
        item_uuid: v.item_uuid,
        item_lore: Some(v.item_lore),
        item_id: match v.item_data {
            Some(d) => Some(d.tag.extra_attributes.id),
            None => None,
        },
        item_count: match v.item_data {
            Some(d) => Some(d.count as i32),
            None => None,
        },
        item_damage: match v.item_data {
            Some(d) => Some(d.damage as i32),
            None => None,
        },
        enchantments: match v.item_data {
            Some(d) => match d.tag.extra_attributes.enchantments {
                Some(m) => Some(rendered_map(m)),
                None => None,
            },
            None => None,
        },
        unbreakable: match v.item_data {
            Some(d) => d.tag.unbreakable,
            None => None,
        },
        price: v.starting_bid,
        claimed: Some(v.claimed),
        tier: v.tier,
        category: v.category,
        last_updated: v.last_updated,
        bin: v.bin,
        reforge: match v.item_data {
            Some(d) => d.tag.extra_attributes.modifier,
            None => None,
        },
        upgrade_level: match v.item_data {
            Some(d) => opt_u8_i32(d.tag.extra_attributes.upgrade_level),
            None => None,
        },
        hot_potato_count: match v.item_data {
            Some(d) => opt_u8_i32(d.tag.extra_attributes.hot_potato_count),
            None => None,
        },
        recomb: match v.item_data {
            Some(d) => d.tag.extra_attributes.rarity_upgrades,
            None => None,
        },
        unlocked_gem_slots: match v.item_data {
            Some(d) => match d.tag.extra_attributes.gems {
                Some(g) => first_unlocked(g),
                None => None,
            },
            None => None,
        },
        slotted_gems: match v.item_data {
            Some(d) => match d.tag.extra_attributes.gems {
                Some(g) => Some(rendered_gems(g)),
                None => None,
            },
            None => None,
        },
        pet_active: match pet {
            Some(p) => p.active,
            None => None,
        },
        pet_type: match pet {
            Some(p) => Some(p.p_type),
            None => None,
        },
        pet_held_item: match pet {
            Some(p) => p.held_item,
            None => None,
        },
        pet_exp: match pet {
            Some(p) => Some(p.exp),
            None => None,
        },
        pet_candy_used: match pet {
            Some(p) => opt_u8_i32(p.candy_used),
            None => None,
        },
        dungeon_item_level: match v.item_data {
            Some(d) => opt_u8_i32(d.tag.extra_attributes.dungeon_item_level),
            None => None,
        },
        red_armor_coloring: match colors {
            Some(t) => Some(t.0),
            None => None,
        },
        green_armor_coloring: match colors {
            Some(t) => Some(t.1),
            None => None,
        },
        blue_armor_coloring: match colors {
            Some(t) => Some(t.2),
            None => None,
        },
        anvil_uses: match v.item_data {
            Some(d) => opt_sat_i32(d.tag.extra_attributes.anvil_uses),
            None => None,
        },
        pelts_earned: match v.item_data {
            Some(d) => opt_sat_i32(d.tag.extra_attributes.pelts_earned),
            None => None,
        },
        champion_combat_xp: match v.item_data {
            Some(d) => d.tag.extra_attributes.champion_combat_xp,
            None => None,
        },
        compact_blocks: match v.item_data {
            Some(d) => opt_sat_i32(d.tag.extra_attributes.compact_blocks),
            None => None,
        },
        hecatomb_s_runs: match v.item_data {
            Some(d) => opt_sat_i32(d.tag.extra_attributes.hecatomb_s_runs),
            None => None,
        },
        expertise_kills: match v.item_data {
            Some(d) => opt_sat_i32(d.tag.extra_attributes.expertise_kills),
            None => None,
        },
        runes: match v.item_data {
            Some(d) => match d.tag.extra_attributes.runes {
                Some(m) => Some(rendered_map(m)),
                None => None,
            },
            None => None,
        },
        farmed_cultivating: match v.item_data {
            Some(d) => opt_sat_i32(d.tag.extra_attributes.farmed_cultivating),
            None => None,
        },
    }
}

/// Saturating narrowing into the storage column, exactly as [`sat_i32`]
/// denotes.
fn sat_u32(x: u32) -> (r: i32)
    ensures
        r == sat_i32(x),
{
    if x <= i32::MAX as u32 {
        x as i32
    } else {
        i32::MAX
    }
}

/// Renders a name-to-level map into canonically ordered lines, exactly as
/// [`rendered_map`] denotes.
fn render_u8_map(entries: &Vec<(String, u8)>) -> (r: Vec<String>)
    ensures
        string_views(r@) == rendered_map(entries@.map_values(|p: (String, u8)| (p.0@, p.1))),
{
    let ghost ev = entries@.map_values(|p: (String, u8)| (p.0@, p.1));
    let mut lines: Vec<String> = Vec::new();
    let mut i: usize = 0;
    while i < entries.len()
        invariant
            i <= entries@.len(),
            ev == entries@.map_values(|p: (String, u8)| (p.0@, p.1)),
            lines@.len() == i,
            forall|k: int| 0 <= k < i ==> lines@[k]@ == map_line(ev[k]),
        decreases entries@.len() - i,
    {
        let mut line = entries[i].0.clone();
        line.append(" ");
        append_dec_u8(&mut line, entries[i].1);
        proof {
            reveal_strlit(" ");
            assert(" "@ =~= seq![' ']);
            assert(line@ =~= entries@[i as int].0@ + seq![' '] + dec_str(
                entries@[i as int].1 as int,
            ));
        }
        lines.push(line);
        i = i + 1;
    }
    proof {
        assert(string_views(lines@) =~= ev.map_values(|p: (Seq<char>, u8)| map_line(p)));
    }
    sort_lines(&lines)
}

/// The gem views of an owned gem map.
pub open spec fn gem_entries_view(entries: Seq<(String, Gem)>) -> Seq<(Seq<char>, GemV)> {
    entries.map_values(|p: (String, Gem)| (p.0@, p.1@))
}

/// Collects the slotted gem lines from entry `i` on, exactly as
/// [`slotted_lines`] denotes on the corresponding suffix.
fn slotted_from(entries: &Vec<(String, Gem)>, i: usize) -> (r: Vec<String>)
    requires
        i <= entries@.len(),
    ensures
        string_views(r@) == slotted_lines(gem_entries_view(entries@).skip(i as int)),
    decreases entries@.len() - i,
{
    let ghost gv = gem_entries_view(entries@);
    if i == entries.len() {
        let out: Vec<String> = Vec::new();
        proof {
            assert(gv.skip(i as int) =~= Seq::<(Seq<char>, GemV)>::empty());
            assert(string_views(out@) =~= Seq::<Seq<char>>::empty());
        }
        return out;
    }
    proof {
        assert(gv.skip(i as int)[0] == gv[i as int]);
        assert(gv[i as int] == (entries@[i as int].0@, entries@[i as int].1@));
        assert(gv.skip(i as int).drop_first() =~= gv.skip(i + 1));
    }
    match &entries[i].1 {
        Gem::UnlockedSlot(s) => {
            let rest = slotted_from(entries, i + 1);
            proof {
                assert(slotted_lines(gv.skip(i as int)) == slotted_lines(gv.skip(i + 1)));
            }
            rest
        },
        Gem::SlottedGem(q) => {
            let mut rest = slotted_from(entries, i + 1);
            let ghost tail = string_views(rest@);
            rest.insert(0, entries[i].0.clone());
            proof {
                assert(string_views(rest@) =~= seq![entries@[i as int].0@] + tail);
            }
            rest
        },
        Gem::SlottedGemStruct(g) => {
            let mut line = entries[i].0.clone();
            line.append(" ");
            line.append(g.quality.as_str());
            proof {
                reveal_strlit(" ");
                assert(" "@ =~= seq![' ']);
                assert(line@ =~= entries@[i as int].0@ + seq![' ']
                    + entries@[i as int].1->SlottedGemStruct_0.quality@);
            }
            let mut rest = slotted_from(entries, i + 1);
            let ghost tail = string_views(rest@);
            let ghost lv = line@;
            rest.insert(0, line);
            proof {
                assert(string_views(rest@) =~= seq![lv] + tail);
            }
            rest
        },
    }
}

/// Clones an owned string list, keeping every view.
fn clone_strings(v: &Vec<String>) -> (r: Vec<String>)
    ensures
        string_views(r@) == string_views(v@),
{
    let mut out: Vec<String> = Vec::new();
    let mut i: usize = 0;
    while i < v.len()
        invariant
            i <= v@.len(),
            out@.len() == i,
            forall|k: int| 0 <= k < i ==> out@[k]@ == v@[k]@,
        decreases v@.len() - i,
    {
        out.push(v[i].clone());
        i = i + 1;
    }
    proof {
        assert(string_views(out@) =~= string_views(v@));
    }
    out
}

/// Finds the first unlocked-slot entry from entry `i` on, exactly as
/// [`first_unlocked`] denotes on the corresponding suffix.
fn first_unlocked_from(entries: &Vec<(String, Gem)>, i: usize) -> (r: Option<Vec<String>>)
    requires
        i <= entries@.len(),
    ensures
        match r {
            Some(v) => first_unlocked(gem_entries_view(entries@).skip(i as int)) == Some(
                string_views(v@),
            ),
            None => first_unlocked(gem_entries_view(entries@).skip(i as int)) is None,
        },
    decreases entries@.len() - i,
{
    let ghost gv = gem_entries_view(entries@);
    if i == entries.len() {
        proof {
            assert(gv.skip(i as int) =~= Seq::<(Seq<char>, GemV)>::empty());
        }
        return None;
    }
    proof {
        assert(gv.skip(i as int)[0] == gv[i as int]);
        assert(gv[i as int] == (entries@[i as int].0@, entries@[i as int].1@));
        assert(gv.skip(i as int).drop_first() =~= gv.skip(i + 1));
    }
    match &entries[i].1 {
        Gem::UnlockedSlot(s) => Some(clone_strings(s)),
        _ => first_unlocked_from(entries, i + 1),
    }
}

impl Auction {
    /// Flattens one listing, with an already-decoded pet outcome, into its
    /// row — exactly [`sp_row`] of the listing's view and the pet.
    #[verifier::rlimit(100)]
    pub fn from_parts(value: crate::auction::Auction, pet: Option<PetInfo>) -> (r: Auction)
        ensures
            r@ == sp_row(value@, opt_pet_view(pet)),
    {
        let ghost vv = value@;
        let ghost petv: Option<PetInfoV> = opt_pet_view(pet);
        let mut item_id: Option<String> = None;
        let mut item_count: Option<i32> = None;
        let mut item_damage: Option<i32> = None;
        let mut enchantments: Option<Vec<String>> = None;
        let mut unbreakable: Option<bool> = None;
        let mut reforge: Option<String> = None;
        let mut upgrade_level: Option<i32> = None;
        let mut hot_potato_count: Option<i32> = None;
        let mut recomb: Option<bool> = None;
        let mut unlocked_gem_slots: Option<Vec<String>> = None;
        let mut slotted_gems: Option<Vec<String>> = None;
        let mut dungeon_item_level: Option<i32> = None;
        let mut red: Option<i32> = None;
        let mut green: Option<i32> = None;
        let mut blue: Option<i32> = None;
        let mut anvil_uses: Option<i32> = None;
        let mut pelts_earned: Option<i32> = None;
        let mut champion_combat_xp: Option<i32> = None;
        let mut compact_blocks: Option<i32> = None;
        let mut hecatomb_s_runs: Option<i32> = None;
        let mut expertise_kills: Option<i32> = None;
        let mut runes: Option<Vec<String>> = None;
        let mut farmed_cultivating: Option<i32> = None;
        if let Some(item) = &value.item_data {
            let bag = &item.tag.extra_attributes;
            item_id = Some(bag.id.clone());
            item_count = Some(item.count as i32);
            item_damage = Some(item.damage as i32);
            if let Some(m) = &bag.enchantments {
                enchantments = Some(render_u8_map(m));
            }
            unbreakable = item.tag.unbreakable;
            reforge = match &bag.modifier {
                Some(s) => Some(s.clone()),
                None => None,
            };
            upgrade_level = match bag.upgrade_level {
                Some(x) => Some(x as i32),
                None => None,
            };
            hot_potato_count = match bag.hot_potato_count {
                Some(x) => Some(x as i32),
                None => None,
            };
            recomb = bag.rarity_upgrades;
            if let Some(g) = &bag.gems {
                proof {
                    assert(gem_entries_view(g@).skip(0) =~= gem_entries_view(g@));
                }
                unlocked_gem_slots = first_unlocked_from(g, 0);
                slotted_gems = Some(sort_lines(&slotted_from(g, 0)));
            }
            dungeon_item_level = match bag.dungeon_item_level {
                Some(x) => Some(x as i32),
                None => None,
            };
            if let Some(c) = &bag.color {
                if let Some(t) = parse_color(c.as_str()) {
                    red = Some(t.0);
                    green = Some(t.1);
                    blue = Some(t.2);
                }
            }
            anvil_uses = match bag.anvil_uses {
                Some(x) => Some(sat_u32(x)),
                None => None,
            };
            pelts_earned = match bag.pelts_earned {
                Some(x) => Some(sat_u32(x)),
                None => None,
            };
            champion_combat_xp = bag.champion_combat_xp;
            compact_blocks = match bag.compact_blocks {
                Some(x) => Some(sat_u32(x)),
                None => None,
            };
            hecatomb_s_runs = match bag.hecatomb_s_runs {
                Some(x) => Some(sat_u32(x)),
                None => None,
            };
            expertise_kills = match bag.expertise_kills {
                Some(x) => Some(sat_u32(x)),
                None => None,
            };
            if let Some(m) = &bag.runes {
                runes = Some(render_u8_map(m));
            }
            farmed_cultivating = match bag.farmed_cultivating {
                Some(x) => Some(sat_u32(x)),
                None => None,
            };
        }
        let mut pet_active: Option<bool> = None;
        let mut pet_type: Option<String> = None;
        let mut pet_held_item: Option<String> = None;
        let mut pet_exp: Option<i32> = None;
        let mut pet_candy_used: Option<i32> = None;
        if let Some(p) = pet {
            pet_active = p.active;
            pet_type = Some(p.p_type);
            pet_held_item = p.held_item;
            pet_exp = Some(p.exp);
            pet_candy_used = match p.candy_used {
                Some(x) => Some(x as i32),
                None => None,
            };
        }
        let out = Auction {
            uuid: value.uuid,
            auctioneer: value.auctioneer,
            profile_id: value.profile_id,
            coop: Some(value.coop),
            start_time: value.start,
            end_time: value.end,
            item_name: value.item_name,
            item_uuid: value.item_uuid,
            item_lore: Some(value.item_lore),
            item_id,
            item_count,
            item_damage,
            enchantments,
            unbreakable,
            price: value.starting_bid,
            claimed: Some(value.claimed),
            tier: value.tier,
            category: value.category,
            last_updated: value.last_updated,
            bin: value.bin,
            reforge,
            upgrade_level,
            hot_potato_count,
            recomb,
            unlocked_gem_slots,
            slotted_gems,
            pet_active,
            pet_type,
            pet_held_item,
            pet_exp,
            pet_candy_used,
            dungeon_item_level,
            red_armor_coloring: red,
            green_armor_coloring: green,
            blue_armor_coloring: blue,
            anvil_uses,
            pelts_earned,
            champion_combat_xp,
            compact_blocks,
            hecatomb_s_runs,
            expertise_kills,
            runes,
            farmed_cultivating,
        };
        proof {
            assert(out@ =~~= sp_row(vv, petv));
        }
        out
    }

    /// Flattens one listing into its row. Total: the embedded pet document
    /// is decoded here, and on failure only the pet sub-fields degrade to
    /// absent — the row is still produced. The result is exactly [`sp_row`]
    /// of the listing and of [`pet_outcome`], the specification decode of
    /// the record's pet text.
    pub fn from(value: crate::auction::Auction) -> (r: Auction)
        ensures
            r@ == sp_row(value@, pet_outcome(value@)),
    {
        let ghost vv = value@;
        let pet = match &value.item_data {
            Some(item) => match crate::pet::decode_pet(&item.tag.extra_attributes.pet_info) {
                Ok(p) => p,
                Err(_) => None,
            },
            None => None,
        };
        let ghost petv: Option<PetInfoV> = opt_pet_view(pet);
        proof {
            assert(petv == pet_outcome(vv));
        }
        let r = Auction::from_parts(value, pet);
        proof {
            assert(r@ == sp_row(vv, petv));
        }
        r
    }

    /// The write path's conflict policy, as one pure function: when a row
    /// for the same listing already exists, an update takes only the mutable
    /// fields — the claimed flag, the last-update timestamp and the end
    /// time — from the incoming row, and every other column keeps its
    /// first-written value.
    pub fn merged_on_conflict(existing: Auction, incoming: &Auction) -> (r: Auction)
        ensures
            r@ == (AuctionRowV {
                claimed: incoming@.claimed,
                last_updated: incoming@.last_updated,
                end_time: incoming@.end_time,
                ..existing@
            }),
    {
        let ghost ev = existing@;
        let r = Auction {
            claimed: incoming.claimed,
            last_updated: incoming.last_updated,
            end_time: incoming.end_time,
            ..existing
        };
        proof {
            assert(r@ =~~= (AuctionRowV {
                claimed: incoming@.claimed,
                last_updated: incoming@.last_updated,
                end_time: incoming@.end_time,
                ..ev
            }));
        }
        r
    }
}

} // verus!
