//! The typed item record decoded from a listing's blob, and its decoding
//! from the tag tree.
//!
//! Every decoder here is verified against a specification decoder over tree
//! views, so the mapping from tree shapes to record fields — including which
//! shapes are rejected, and with which error — is pinned down exactly.
//! Absent optional fields stay absent; they are never replaced by defaults.

use vstd::prelude::*;

use crate::errors::DecodeError;
use crate::narrow::{float_trunc, narrow_i32, narrow_u16, narrow_u32, narrow_u8};
use crate::text::str_eq;
use crate::tree::{fields_view, items_view, node_view, TreeNode, TreeV};

verus! {

broadcast use {crate::tree::fields_view_len, crate::tree::items_view_len};

/// One enchantment entry of the item's outer enchantment list.
#[derive(Debug, Clone, PartialEq, Eq, Structural)]
pub struct MinecraftEnchant {
    pub lvl: u16,
    pub id: u16,
}

/// Display metadata: lore lines, an optional packed color, and a name.
#[derive(Debug, Clone)]
pub struct DisplayInfo {
    pub lore: Vec<String>,
    pub color: Option<u32>,
    pub name: String,
}

/// The view of [`DisplayInfo`].
#[verifier::ext_equal]
pub struct DisplayInfoV {
    pub lore: Seq<Seq<char>>,
    pub color: Option<u32>,
    pub name: Seq<char>,
}

impl View for DisplayInfo {
    type V = DisplayInfoV;

    open spec fn view(&self) -> DisplayInfoV {
        DisplayInfoV {
            lore: self.lore@.map_values(|s: String| s@),
            color: self.color,
            name: self.name@,
        }
    }
}

/// A creation timestamp, which the feed carries either as epoch milliseconds
/// or as a preformatted text.
#[derive(Debug, Clone)]
pub enum HypixelTimestamp {
    Timestamp(i64),
    TimeStamp(String),
}

/// The view of [`HypixelTimestamp`].
pub enum HypixelTimestampV {
    Timestamp(i64),
    TimeStamp(Seq<char>),
}

impl View for HypixelTimestamp {
    type V = HypixelTimestampV;

    open spec fn view(&self) -> HypixelTimestampV {
        match self {
            HypixelTimestamp::Timestamp(v) => HypixelTimestampV::Timestamp(*v),
            HypixelTimestamp::TimeStamp(s) => HypixelTimestampV::TimeStamp(s@),
        }
    }
}

/// A structured slotted gem: instance id plus quality.
#[derive(Debug, Clone)]
pub struct SlottedGem {
    pub uuid: String,
    pub quality: String,
}

/// The view of [`SlottedGem`].
#[verifier::ext_equal]
pub struct SlottedGemV {
    pub uuid: Seq<char>,
    pub quality: Seq<char>,
}

impl View for SlottedGem {
    type V = SlottedGemV;

    open spec fn view(&self) -> SlottedGemV {
        SlottedGemV { uuid: self.uuid@, quality: self.quality@ }
    }
}

/// One entry of the gem map: exactly one of three shapes. An unlocked slot
/// lists the slot kinds that exist but are unfilled; a slotted gem is either
/// a bare quality text or a structured entry.
#[derive(Debug, Clone)]
pub enum Gem {
    UnlockedSlot(Vec<String>),
    SlottedGem(String),
    SlottedGemStruct(SlottedGem),
}

/// The view of [`Gem`].
pub enum GemV {
    UnlockedSlot(Seq<Seq<char>>),
    SlottedGem(Seq<char>),
    SlottedGemStruct(SlottedGemV),
}

impl View for Gem {
    type V = GemV;

    open spec fn view(&self) -> GemV {
        match self {
            Gem::UnlockedSlot(v) => GemV::UnlockedSlot(v@.map_values(|s: String| s@)),
            Gem::SlottedGem(s) => GemV::SlottedGem(s@),
            Gem::SlottedGemStruct(g) => GemV::SlottedGemStruct(g@),
        }
    }
}

/// The sparse attribute bag: independently-optional typed fields plus three
/// dynamically-keyed maps. Map entries are kept in blob order here; rendering
/// orders them canonically. The embedded pet document is kept as its raw
/// text, so that its own decoding can fail without failing the item.
#[derive(Debug, Clone)]
pub struct ExtraAttributes {
    pub id: String,
    pub uuid: Option<String>,
    pub timestamp: Option<HypixelTimestamp>,
    pub rarity_upgrades: Option<bool>,
    pub modifier: Option<String>,
    pub upgrade_level: Option<u8>,
    pub hot_potato_count: Option<u8>,
    pub enchantments: Option<Vec<(String, u8)>>,
    pub gems: Option<Vec<(String, Gem)>>,
    pub dungeon_item_level: Option<u8>,
    pub dungeon_item: Option<bool>,
    pub origin_tag: Option<String>,
    pub color: Option<String>,
    pub anvil_uses: Option<u32>,
    pub pelts_earned: Option<u32>,
    pub champion_combat_xp: Option<i32>,
    pub farmed_cultivating: Option<u32>,
    pub compact_blocks: Option<u32>,
    pub hecatomb_s_runs: Option<u32>,
    pub expertise_kills: Option<u32>,
    pub farming_for_dummies_count: Option<u32>,
    pub runes: Option<Vec<(String, u8)>>,
    pub pet_info: Option<String>,
    pub raffle_year: Option<u32>,
    pub raffle_win: Option<String>,
    pub dye_item: Option<String>,
}

/// The view of [`ExtraAttributes`].
#[verifier::ext_equal]
pub struct ExtraAttributesV {
    pub id: Seq<char>,
    pub uuid: Option<Seq<char>>,
    pub timestamp: Option<HypixelTimestampV>,
    pub rarity_upgrades: Option<bool>,
    pub modifier: Option<Seq<char>>,
    pub upgrade_level: Option<u8>,
    pub hot_potato_count: Option<u8>,
    pub enchantments: Option<Seq<(Seq<char>, u8)>>,
    pub gems: Option<Seq<(Seq<char>, GemV)>>,
    pub dungeon_item_level: Option<u8>,
    pub dungeon_item: Option<bool>,
    pub origin_tag: Option<Seq<char>>,
    pub color: Option<Seq<char>>,
    pub anvil_uses: Option<u32>,
    pub pelts_earned: Option<u32>,
    pub champion_combat_xp: Option<i32>,
    pub farmed_cultivating: Option<u32>,
    pub compact_blocks: Option<u32>,
    pub hecatomb_s_runs: Option<u32>,
    pub expertise_kills: Option<u32>,
    pub farming_for_dummies_count: Option<u32>,
    pub runes: Option<Seq<(Seq<char>, u8)>>,
    pub pet_info: Option<Seq<char>>,
    pub raffle_year: Option<u32>,
    pub raffle_win: Option<Seq<char>>,
    pub dye_item: Option<Seq<char>>,
}

/// The view of an optional owned string.
pub open spec fn opt_text_view(o: Option<String>) -> Option<Seq<char>> {
    match o {
        Some(s) => Some(s@),
        None => None,
    }
}

/// The view of an optional name-to-level map.
pub open spec fn opt_u8_map_view(o: Option<Vec<(String, u8)>>) -> Option<Seq<(Seq<char>, u8)>> {
    match o {
        Some(v) => Some(v@.map_values(|p: (String, u8)| (p.0@, p.1))),
        None => None,
    }
}

/// The view of an optional gem map.
pub open spec fn opt_gem_map_view(o: Option<Vec<(String, Gem)>>) -> Option<
    Seq<(Seq<char>, GemV)>,
> {
    match o {
        Some(v) => Some(v@.map_values(|p: (String, Gem)| (p.0@, p.1@))),
        None => None,
    }
}

/// The view of an optional timestamp.
pub open spec fn opt_ts_view(o: Option<HypixelTimestamp>) -> Option<HypixelTimestampV> {
    match o {
        Some(t) => Some(t@),
        None => None,
    }
}

impl View for ExtraAttributes {
    type V = ExtraAttributesV;

    open spec fn view(&self) -> ExtraAttributesV {
        ExtraAttributesV {
            id: self.id@,
            uuid: opt_text_view(self.uuid),
            timestamp: opt_ts_view(self.timestamp),
            rarity_upgrades: self.rarity_upgrades,
            modifier: opt_text_view(self.modifier),
            upgrade_level: self.upgrade_level,
            hot_potato_count: self.hot_potato_count,
            enchantments: opt_u8_map_view(self.enchantments),
            gems: opt_gem_map_view(self.gems),
            dungeon_item_level: self.dungeon_item_level,
            dungeon_item: self.dungeon_item,
            origin_tag: opt_text_view(self.origin_tag),
            color: opt_text_view(self.color),
            anvil_uses: self.anvil_uses,
            pelts_earned: self.pelts_earned,
            champion_combat_xp: self.champion_combat_xp,
            farmed_cultivating: self.farmed_cultivating,
            compact_blocks: self.compact_blocks,
            hecatomb_s_runs: self.hecatomb_s_runs,
            expertise_kills: self.expertise_kills,
            farming_for_dummies_count: self.farming_for_dummies_count,
            runes: opt_u8_map_view(self.runes),
            pet_info: opt_text_view(self.pet_info),
            raffle_year: self.raffle_year,
            raffle_win: opt_text_view(self.raffle_win),
            dye_item: opt_text_view(self.dye_item),
        }
    }
}

/// The item's tag: enchantment list, flags, display block, and the attribute
/// bag.
#[derive(Debug, Clone)]
pub struct Tag {
    pub ench: Option<Vec<MinecraftEnchant>>,
    pub unbreakable: Option<bool>,
    pub hide_flags: Option<u8>,
    pub display: DisplayInfo,
    pub extra_attributes: ExtraAttributes,
}

/// The view of [`Tag`].
#[verifier::ext_equal]
pub struct TagV {
    pub ench: Option<Seq<MinecraftEnchant>>,
    pub unbreakable: Option<bool>,
    pub hide_flags: Option<u8>,
    pub display: DisplayInfoV,
    pub extra_attributes: ExtraAttributesV,
}

/// The view of an optional enchantment list.
pub open spec fn opt_ench_view(o: Option<Vec<MinecraftEnchant>>) -> Option<Seq<MinecraftEnchant>> {
    match o {
        Some(v) => Some(v@),
        None => None,
    }
}

impl View for Tag {
    type V = TagV;

    open spec fn view(&self) -> TagV {
        TagV {
            ench: opt_ench_view(self.ench),
            unbreakable: self.unbreakable,
            hide_flags: self.hide_flags,
            display: self.display@,
            extra_attributes: self.extra_attributes@,
        }
    }
}

/// The decoded item record: numeric type id, stack count, damage value, and
/// the tag.
#[derive(Debug, Clone)]
pub struct ItemData {
    pub id: u32,
    pub count: u8,
    pub tag: Tag,
    pub damage: u16,
}

/// The view of [`ItemData`].
#[verifier::ext_equal]
pub struct ItemDataV {
    pub id: u32,
    pub count: u8,
    pub tag: TagV,
    pub damage: u16,
}

impl View for ItemData {
    type V = ItemDataV;

    open spec fn view(&self) -> ItemDataV {
        ItemDataV { id: self.id, count: self.count, tag: self.tag@, damage: self.damage }
    }
}

/// The first child of a compound with the given name, if any. When a blob
/// repeats a name, the first occurrence is the one read.
pub open spec fn lookup(fields: Seq<(Seq<char>, TreeV)>, name: Seq<char>) -> Option<TreeV>
    decreases fields.len(),
{
    if fields.len() == 0 {
        None
    } else if fields[0].0 == name {
        Some(fields[0].1)
    } else {
        lookup(fields.drop_first(), name)
    }
}

/// The integer a scalar node denotes, regardless of its width.
pub open spec fn int_of(n: TreeV) -> Option<int> {
    match n {
        TreeV::Byte(x) => Some(x as int),
        TreeV::Short(x) => Some(x as int),
        TreeV::Int(x) => Some(x as int),
        TreeV::Long(x) => Some(x as int),
        _ => None,
    }
}

/// The text a node denotes.
pub open spec fn text_of(n: TreeV) -> Option<Seq<char>> {
    match n {
        TreeV::Text(s) => Some(s),
        _ => None,
    }
}

/// The truth value a node denotes: a byte, zero meaning false and anything
/// else true.
pub open spec fn bool_of(n: TreeV) -> Option<bool> {
    match n {
        TreeV::Byte(x) => Some(x != 0),
        _ => None,
    }
}

/// An optional bounded integer field: absent stays absent, a non-scalar node
/// is a shape violation, and a value outside `lo ..= hi` is out of range.
#[verifier::opaque]
pub open spec fn opt_int_field(
    fields: Seq<(Seq<char>, TreeV)>,
    name: Seq<char>,
    lo: int,
    hi: int,
) -> Result<Option<int>, DecodeError> {
    match lookup(fields, name) {
        None => Ok(None),
        Some(n) => match int_of(n) {
            None => Err(DecodeError::Malformed),
            Some(v) => if lo <= v <= hi {
                Ok(Some(v))
            } else {
                Err(DecodeError::OutOfRange)
            },
        },
    }
}

/// A required bounded integer field.
#[verifier::opaque]
pub open spec fn req_int_field(
    fields: Seq<(Seq<char>, TreeV)>,
    name: Seq<char>,
    lo: int,
    hi: int,
) -> Result<int, DecodeError> {
    match opt_int_field(fields, name, lo, hi) {
        Err(e) => Err(e),
        Ok(None) => Err(DecodeError::Malformed),
        Ok(Some(v)) => Ok(v),
    }
}

/// An optional text field.
#[verifier::opaque]
pub open spec fn opt_text_field(fields: Seq<(Seq<char>, TreeV)>, name: Seq<char>) -> Result<
    Option<Seq<char>>,
    DecodeError,
> {
    match lookup(fields, name) {
        None => Ok(None),
        Some(n) => match text_of(n) {
            None => Err(DecodeError::Malformed),
            Some(s) => Ok(Some(s)),
        },
    }
}

/// A required text field.
#[verifier::opaque]
pub open spec fn req_text_field(fields: Seq<(Seq<char>, TreeV)>, name: Seq<char>) -> Result<
    Seq<char>,
    DecodeError,
> {
    match opt_text_field(fields, name) {
        Err(e) => Err(e),
        Ok(None) => Err(DecodeError::Malformed),
        Ok(Some(s)) => Ok(s),
    }
}

/// An optional flag field.
#[verifier::opaque]
pub open spec fn opt_bool_field(fields: Seq<(Seq<char>, TreeV)>, name: Seq<char>) -> Result<
    Option<bool>,
    DecodeError,
> {
    match lookup(fields, name) {
        None => Ok(None),
        Some(n) => match bool_of(n) {
            None => Err(DecodeError::Malformed),
            Some(v) => Ok(Some(v)),
        },
    }
}

/// An optional stat counter that the feed may carry as a float: a float node
/// is truncated toward zero (saturating), an integer node must fit the
/// 32-bit signed domain.
#[verifier::opaque]
pub open spec fn opt_stat_field(fields: Seq<(Seq<char>, TreeV)>, name: Seq<char>) -> Result<
    Option<int>,
    DecodeError,
> {
    match lookup(fields, name) {
        None => Ok(None),
        Some(n) => match n {
            TreeV::FloatBits(bits) => if crate::narrow::float_in_i32(bits) {
                Ok(Some(float_trunc(bits)))
            } else {
                Err(DecodeError::OutOfRange)
            },
            _ => match int_of(n) {
                None => Err(DecodeError::Malformed),
                Some(v) => if i32::MIN <= v <= i32::MAX {
                    Ok(Some(v))
                } else {
                    Err(DecodeError::OutOfRange)
                },
            },
        },
    }
}

/// A name-to-level map: every entry's value must be a scalar in the level
/// domain `0 ..= 255`, and no name may repeat — a duplicate key is a shape
/// violation, not a silent overwrite.
pub open spec fn u8_map_of(entries: Seq<(Seq<char>, TreeV)>) -> Result<
    Seq<(Seq<char>, u8)>,
    DecodeError,
>
    decreases entries.len(),
{
    if entries.len() == 0 {
        Ok(Seq::empty())
    } else if lookup(entries.drop_first(), entries[0].0) is Some {
        Err(DecodeError::Malformed)
    } else {
        match int_of(entries[0].1) {
            None => Err(DecodeError::Malformed),
            Some(v) => if 0 <= v <= 255 {
                match u8_map_of(entries.drop_first()) {
                    Err(e) => Err(e),
                    Ok(rest) => Ok(seq![(entries[0].0, v as u8)] + rest),
                }
            } else {
                Err(DecodeError::OutOfRange)
            },
        }
    }
}

/// An optional name-to-level map field.
#[verifier::opaque]
pub open spec fn opt_u8_map_field(fields: Seq<(Seq<char>, TreeV)>, name: Seq<char>) -> Result<
    Option<Seq<(Seq<char>, u8)>>,
    DecodeError,
> {
    match lookup(fields, name) {
        None => Ok(None),
        Some(n) => match n {
            TreeV::Compound(entries) => match u8_map_of(entries) {
                Err(e) => Err(e),
                Ok(m) => Ok(Some(m)),
            },
            _ => Err(DecodeError::Malformed),
        },
    }
}

/// The texts of a list of text nodes; `None` if any element is not text.
pub open spec fn texts_of(items: Seq<TreeV>) -> Option<Seq<Seq<char>>>
    decreases items.len(),
{
    if items.len() == 0 {
        Some(Seq::empty())
    } else {
        match text_of(items[0]) {
            None => None,
            Some(s) => match texts_of(items.drop_first()) {
                None => None,
                Some(rest) => Some(seq![s] + rest),
            },
        }
    }
}

/// Classifies one gem-map entry into exactly one of the three gem shapes; a
/// node matching none of them is a shape violation, never a default.
pub open spec fn gem_of(n: TreeV) -> Result<GemV, DecodeError> {
    match n {
        TreeV::List(t, items) => match texts_of(items) {
            None => Err(DecodeError::Malformed),
            Some(slots) => Ok(GemV::UnlockedSlot(slots)),
        },
        TreeV::Text(s) => Ok(GemV::SlottedGem(s)),
        TreeV::Compound(entries) => match req_text_field(entries, "uuid"@) {
            Err(e) => Err(e),
            Ok(uuid) => match req_text_field(entries, "quality"@) {
                Err(e) => Err(e),
                Ok(quality) => Ok(GemV::SlottedGemStruct(SlottedGemV { uuid, quality })),
            },
        },
        _ => Err(DecodeError::Malformed),
    }
}

/// A gem map: each entry classified by [`gem_of`]; as in the other maps, a
/// duplicate key is a shape violation.
pub open spec fn gem_map_of(entries: Seq<(Seq<char>, TreeV)>) -> Result<
    Seq<(Seq<char>, GemV)>,
    DecodeError,
>
    decreases entries.len(),
{
    if entries.len() == 0 {
        Ok(Seq::empty())
    } else if lookup(entries.drop_first(), entries[0].0) is Some {
        Err(DecodeError::Malformed)
    } else {
        match gem_of(entries[0].1) {
            Err(e) => Err(e),
            Ok(g) => match gem_map_of(entries.drop_first()) {
                Err(e) => Err(e),
                Ok(rest) => Ok(seq![(entries[0].0, g)] + rest),
            },
        }
    }
}

/// An optional gem map field.
#[verifier::opaque]
pub open spec fn opt_gem_map_field(fields: Seq<(Seq<char>, TreeV)>, name: Seq<char>) -> Result<
    Option<Seq<(Seq<char>, GemV)>>,
    DecodeError,
> {
    match lookup(fields, name) {
        None => Ok(None),
        Some(n) => match n {
            TreeV::Compound(entries) => match gem_map_of(entries) {
                Err(e) => Err(e),
                Ok(m) => Ok(Some(m)),
            },
            _ => Err(DecodeError::Malformed),
        },
    }
}

/// An optional creation timestamp: an integer scalar reads as epoch
/// milliseconds, a text as a preformatted stamp.
#[verifier::opaque]
pub open spec fn opt_ts_field(fields: Seq<(Seq<char>, TreeV)>, name: Seq<char>) -> Result<
    Option<HypixelTimestampV>,
    DecodeError,
> {
    match lookup(fields, name) {
        None => Ok(None),
        Some(n) => match text_of(n) {
            Some(s) => Ok(Some(HypixelTimestampV::TimeStamp(s))),
            None => match int_of(n) {
                Some(v) => if i64::MIN <= v <= i64::MAX {
                    Ok(Some(HypixelTimestampV::Timestamp(v as i64)))
                } else {
                    Err(DecodeError::OutOfRange)
                },
                None => Err(DecodeError::Malformed),
            },
        },
    }
}

/// One outer enchantment entry: a compound with a level and an id, both in
/// the 16-bit unsigned domain.
pub open spec fn ench_entry_of(n: TreeV) -> Result<MinecraftEnchant, DecodeError> {
    match n {
        TreeV::Compound(entries) => match req_int_field(entries, "lvl"@, 0, 65535) {
            Err(e) => Err(e),
            Ok(lvl) => match req_int_field(entries, "id"@, 0, 65535) {
                Err(e) => Err(e),
                Ok(id) => Ok(MinecraftEnchant { lvl: lvl as u16, id: id as u16 }),
            },
        },
        _ => Err(DecodeError::Malformed),
    }
}

/// The outer enchantment list.
pub open spec fn ench_list_of(items: Seq<TreeV>) -> Result<Seq<MinecraftEnchant>, DecodeError>
    decreases items.len(),
{
    if items.len() == 0 {
        Ok(Seq::empty())
    } else {
        match ench_entry_of(items[0]) {
            Err(e) => Err(e),
            Ok(en) => match ench_list_of(items.drop_first()) {
                Err(e) => Err(e),
                Ok(rest) => Ok(seq![en] + rest),
            },
        }
    }
}

/// An optional outer enchantment list field.
#[verifier::opaque]
pub open spec fn opt_ench_field(fields: Seq<(Seq<char>, TreeV)>, name: Seq<char>) -> Result<
    Option<Seq<MinecraftEnchant>>,
    DecodeError,
> {
    match lookup(fields, name) {
        None => Ok(None),
        Some(n) => match n {
            TreeV::List(t, items) => match ench_list_of(items) {
                Err(e) => Err(e),
                Ok(l) => Ok(Some(l)),
            },
            _ => Err(DecodeError::Malformed),
        },
    }
}

/// The display block: required lore list of texts, optional packed color,
/// required name.
pub open spec fn sp_display(n: TreeV) -> Result<DisplayInfoV, DecodeError> {
    match n {
        TreeV::Compound(fields) => match lookup(fields, "Lore"@) {
            None => Err(DecodeError::Malformed),
            Some(ln) => match ln {
                TreeV::List(t, items) => match texts_of(items) {
                    None => Err(DecodeError::Malformed),
                    Some(lore) => match opt_int_field(fields, "color"@, 0, u32::MAX as int) {
                        Err(e) => Err(e),
                        Ok(color) => match req_text_field(fields, "Name"@) {
                            Err(e) => Err(e),
                            Ok(name) => Ok(
                                DisplayInfoV {
                                    lore,
                                    color: match color {
                                        Some(c) => Some(c as u32),
                                        None => None,
                                    },
                                    name,
                                },
                            ),
                        },
                    },
                },
                _ => Err(DecodeError::Malformed),
            },
        },
        _ => Err(DecodeError::Malformed),
    }
}

/// Turns an optional bounded integer into an optional `u8`, meaningful when
/// the bound was `0 ..= 255`.
pub open spec fn as_opt_u8(o: Option<int>) -> Option<u8> {
    match o {
        Some(v) => Some(v as u8),
        None => None,
    }
}

/// Turns an optional bounded integer into an optional `u32`.
pub open spec fn as_opt_u32(o: Option<int>) -> Option<u32> {
    match o {
        Some(v) => Some(v as u32),
        None => None,
    }
}

/// Turns an optional bounded integer into an optional `i32`.
pub open spec fn as_opt_i32(o: Option<int>) -> Option<i32> {
    match o {
        Some(v) => Some(v as i32),
        None => None,
    }
}

/// The payload of a successful optional extraction; `None` on error, where
/// it carries no meaning.
pub open spec fn ok_or_none<T>(r: Result<Option<T>, DecodeError>) -> Option<T> {
    match r {
        Ok(v) => v,
        Err(_) => None,
    }
}

/// The payload of a successful required text extraction; empty on error,
/// where it carries no meaning.
pub open spec fn ok_text(r: Result<Seq<char>, DecodeError>) -> Seq<char> {
    match r {
        Ok(s) => s,
        Err(_) => Seq::empty(),
    }
}

/// The first error among the identity, timestamp, reforge, upgrade and map
/// fields, reading them in declaration order.
pub open spec fn sp_extra_err_a(f: Seq<(Seq<char>, TreeV)>) -> Option<DecodeError> {
    if req_text_field(f, "id"@) is Err {
        Some(req_text_field(f, "id"@)->Err_0)
    } else if opt_text_field(f, "uuid"@) is Err {
        Some(opt_text_field(f, "uuid"@)->Err_0)
    } else if opt_ts_field(f, "timestamp"@) is Err {
        Some(opt_ts_field(f, "timestamp"@)->Err_0)
    } else if opt_bool_field(f, "rarity_upgrades"@) is Err {
        Some(opt_bool_field(f, "rarity_upgrades"@)->Err_0)
    } else if opt_text_field(f, "modifier"@) is Err {
        Some(opt_text_field(f, "modifier"@)->Err_0)
    } else if opt_int_field(f, "upgrade_level"@, 0, 255) is Err {
        Some(opt_int_field(f, "upgrade_level"@, 0, 255)->Err_0)
    } else if opt_int_field(f, "hot_potato_count"@, 0, 255) is Err {
        Some(opt_int_field(f, "hot_potato_count"@, 0, 255)->Err_0)
    } else if opt_u8_map_field(f, "enchantments"@) is Err {
        Some(opt_u8_map_field(f, "enchantments"@)->Err_0)
    } else if opt_gem_map_field(f, "gems"@) is Err {
        Some(opt_gem_map_field(f, "gems"@)->Err_0)
    } else {
        None
    }
}

/// The first error among the dungeon, origin, color and early stat fields.
pub open spec fn sp_extra_err_b(f: Seq<(Seq<char>, TreeV)>) -> Option<DecodeError> {
    if opt_int_field(f, "dungeon_item_level"@, 0, 255) is Err {
        Some(opt_int_field(f, "dungeon_item_level"@, 0, 255)->Err_0)
    } else if opt_bool_field(f, "dungeon_item"@) is Err {
        Some(opt_bool_field(f, "dungeon_item"@)->Err_0)
    } else if opt_text_field(f, "originTag"@) is Err {
        Some(opt_text_field(f, "originTag"@)->Err_0)
    } else if opt_text_field(f, "color"@) is Err {
        Some(opt_text_field(f, "color"@)->Err_0)
    } else if opt_int_field(f, "anvil_uses"@, 0, i32::MAX as int) is Err {
        Some(opt_int_field(f, "anvil_uses"@, 0, i32::MAX as int)->Err_0)
    } else if opt_int_field(f, "pelts_earned"@, 0, i32::MAX as int) is Err {
        Some(opt_int_field(f, "pelts_earned"@, 0, i32::MAX as int)->Err_0)
    } else if opt_stat_field(f, "champion_combat_xp"@) is Err {
        Some(opt_stat_field(f, "champion_combat_xp"@)->Err_0)
    } else if opt_int_field(f, "farmed_cultivating"@, 0, i32::MAX as int) is Err {
        Some(opt_int_field(f, "farmed_cultivating"@, 0, i32::MAX as int)->Err_0)
    } else if opt_int_field(f, "compact_blocks"@, 0, i32::MAX as int) is Err {
        Some(opt_int_field(f, "compact_blocks"@, 0, i32::MAX as int)->Err_0)
    } else {
        None
    }
}

/// The first error among the late stat, rune, pet and raffle fields.
pub open spec fn sp_extra_err_c(f: Seq<(Seq<char>, TreeV)>) -> Option<DecodeError> {
    if opt_int_field(f, "hecatomb_s_runs"@, 0, i32::MAX as int) is Err {
        Some(opt_int_field(f, "hecatomb_s_runs"@, 0, i32::MAX as int)->Err_0)
    } else if opt_int_field(f, "expertise_kills"@, 0, i32::MAX as int) is Err {
        Some(opt_int_field(f, "expertise_kills"@, 0, i32::MAX as int)->Err_0)
    } else if opt_int_field(f, "farming_for_dummies_count"@, 0, u32::MAX as int) is Err {
        Some(opt_int_field(f, "farming_for_dummies_count"@, 0, u32::MAX as int)->Err_0)
    } else if opt_u8_map_field(f, "runes"@) is Err {
        Some(opt_u8_map_field(f, "runes"@)->Err_0)
    } else if opt_text_field(f, "petInfo"@) is Err {
        Some(opt_text_field(f, "petInfo"@)->Err_0)
    } else if opt_int_field(f, "raffle_year"@, 0, u32::MAX as int) is Err {
        Some(opt_int_field(f, "raffle_year"@, 0, u32::MAX as int)->Err_0)
    } else if opt_text_field(f, "raffle_win"@) is Err {
        Some(opt_text_field(f, "raffle_win"@)->Err_0)
    } else if opt_text_field(f, "dye_item"@) is Err {
        Some(opt_text_field(f, "dye_item"@)->Err_0)
    } else {
        None
    }
}

/// The first error the attribute-bag decoder meets, reading the fields in
/// declaration order; `None` when every field decodes.
pub open spec fn sp_extra_err(f: Seq<(Seq<char>, TreeV)>) -> Option<DecodeError> {
    match sp_extra_err_a(f) {
        Some(e) => Some(e),
        None => match sp_extra_err_b(f) {
            Some(e) => Some(e),
            None => sp_extra_err_c(f),
        },
    }
}

/// The attribute bag a compound's children decode to, meaningful when
/// [`sp_extra_err`] is `None`.
pub open spec fn sp_extra_ok(f: Seq<(Seq<char>, TreeV)>) -> ExtraAttributesV {
    ExtraAttributesV {
        id: ok_text(req_text_field(f, "id"@)),
        uuid: ok_or_none(opt_text_field(f, "uuid"@)),
        timestamp: ok_or_none(opt_ts_field(f, "timestamp"@)),
        rarity_upgrades: ok_or_none(opt_bool_field(f, "rarity_upgrades"@)),
        modifier: ok_or_none(opt_text_field(f, "modifier"@)),
        upgrade_level: as_opt_u8(ok_or_none(opt_int_field(f, "upgrade_level"@, 0, 255))),
        hot_potato_count: as_opt_u8(ok_or_none(opt_int_field(f, "hot_potato_count"@, 0, 255))),
        enchantments: ok_or_none(opt_u8_map_field(f, "enchantments"@)),
        gems: ok_or_none(opt_gem_map_field(f, "gems"@)),
        dungeon_item_level: as_opt_u8(
            ok_or_none(opt_int_field(f, "dungeon_item_level"@, 0, 255)),
        ),
        dungeon_item: ok_or_none(opt_bool_field(f, "dungeon_item"@)),
        origin_tag: ok_or_none(opt_text_field(f, "originTag"@)),
        color: ok_or_none(opt_text_field(f, "color"@)),
        anvil_uses: as_opt_u32(ok_or_none(opt_int_field(f, "anvil_uses"@, 0, i32::MAX as int))),
        pelts_earned: as_opt_u32(
            ok_or_none(opt_int_field(f, "pelts_earned"@, 0, i32::MAX as int)),
        ),
        champion_combat_xp: as_opt_i32(ok_or_none(opt_stat_field(f, "champion_combat_xp"@))),
        farmed_cultivating: as_opt_u32(
            ok_or_none(opt_int_field(f, "farmed_cultivating"@, 0, i32::MAX as int)),
        ),
        compact_blocks: as_opt_u32(
            ok_or_none(opt_int_field(f, "compact_blocks"@, 0, i32::MAX as int)),
        ),
        hecatomb_s_runs: as_opt_u32(
            ok_or_none(opt_int_field(f, "hecatomb_s_runs"@, 0, i32::MAX as int)),
        ),
        expertise_kills: as_opt_u32(
            ok_or_none(opt_int_field(f, "expertise_kills"@, 0, i32::MAX as int)),
        ),
        farming_for_dummies_count: as_opt_u32(
            ok_or_none(opt_int_field(f, "farming_for_dummies_count"@, 0, u32::MAX as int)),
        ),
        runes: ok_or_none(opt_u8_map_field(f, "runes"@)),
        pet_info: ok_or_none(opt_text_field(f, "petInfo"@)),
        raffle_year: as_opt_u32(
            ok_or_none(opt_int_field(f, "raffle_year"@, 0, u32::MAX as int)),
        ),
        raffle_win: ok_or_none(opt_text_field(f, "raffle_win"@)),
        dye_item: ok_or_none(opt_text_field(f, "dye_item"@)),
    }
}

/// The attribute bag a node decodes to: the node must be a compound.
pub open spec fn sp_extra(n: TreeV) -> Result<ExtraAttributesV, DecodeError> {
    match n {
        TreeV::Compound(f) => match sp_extra_err(f) {
            Some(e) => Err(e),
            None => Ok(sp_extra_ok(f)),
        },
        _ => Err(DecodeError::Malformed),
    }
}

/// The tag a node decodes to: enchantment list, flags, required display
/// block, required attribute bag.
pub open spec fn sp_tag(n: TreeV) -> Result<TagV, DecodeError> {
    match n {
        TreeV::Compound(f) => match opt_ench_field(f, "ench"@) {
            Err(e) => Err(e),
            Ok(ench) => match opt_bool_field(f, "Unbreakable"@) {
                Err(e) => Err(e),
                Ok(unbreakable) => match opt_int_field(f, "HideFlags"@, 0, 255) {
                    Err(e) => Err(e),
                    Ok(hide_flags) => match lookup(f, "display"@) {
                        None => Err(DecodeError::Malformed),
                        Some(dn) => match sp_display(dn) {
                            Err(e) => Err(e),
                            Ok(display) => match lookup(f, "ExtraAttributes"@) {
                                None => Err(DecodeError::Malformed),
                                Some(en) => match sp_extra(en) {
                                    Err(e) => Err(e),
                                    Ok(extra_attributes) => Ok(
                                        TagV {
                                            ench,
                                            unbreakable,
                                            hide_flags: as_opt_u8(hide_flags),
                                            display,
                                            extra_attributes,
                                        },
                                    ),
                                },
                            },
                        },
                    },
                },
            },
        },
        _ => Err(DecodeError::Malformed),
    }
}

/// The item record one wrapper-list entry decodes to.
pub open spec fn sp_item_entry(n: TreeV) -> Result<ItemDataV, DecodeError> {
    match n {
        TreeV::Compound(f) => match req_int_field(f, "id"@, 0, u32::MAX as int) {
            Err(e) => Err(e),
            Ok(id) => match req_int_field(f, "Count"@, 0, 255) {
                Err(e) => Err(e),
                Ok(count) => match lookup(f, "tag"@) {
                    None => Err(DecodeError::Malformed),
                    Some(tn) => match sp_tag(tn) {
                        Err(e) => Err(e),
                        Ok(tag) => match req_int_field(f, "Damage"@, 0, 65535) {
                            Err(e) => Err(e),
                            Ok(damage) => Ok(
                                ItemDataV {
                                    id: id as u32,
                                    count: count as u8,
                                    tag,
                                    damage: damage as u16,
                                },
                            ),
                        },
                    },
                },
            },
        },
        _ => Err(DecodeError::Malformed),
    }
}

/// What a decompressed blob's root compound decodes to: the wrapper must
/// hold a list named `i`; an empty list is an empty payload; the first entry
/// is the item, and the flag records whether surplus entries were present —
/// the shape anomaly the caller reports.
pub open spec fn sp_item(root: Seq<(Seq<char>, TreeV)>) -> Result<(ItemDataV, bool), DecodeError> {
    match lookup(root, "i"@) {
        None => Err(DecodeError::Malformed),
        Some(n) => match n {
            TreeV::List(t, items) => if items.len() == 0 {
                Err(DecodeError::EmptyPayload)
            } else {
                match sp_item_entry(items[0]) {
                    Err(e) => Err(e),
                    Ok(d) => Ok((d, items.len() > 1)),
                }
            },
            _ => Err(DecodeError::Malformed),
        },
    }
}

pub proof fn lookup_skip_step(fields: Seq<(Seq<char>, TreeV)>, name: Seq<char>, i: int)
    requires
        0 <= i < fields.len(),
        fields[i].0 != name,
    ensures
        lookup(fields.skip(i), name) == lookup(fields.skip(i + 1), name),
{
    assert(fields.skip(i)[0] == fields[i]);
    assert(fields.skip(i).drop_first() =~= fields.skip(i + 1));
}

/// Finds the first child with the given name.
fn find_field<'a>(fields: &'a Vec<(String, TreeNode)>, name: &str) -> (r: Option<&'a TreeNode>)
    ensures
        match r {
            Some(n) => lookup(fields_view(fields@), name@) == Some(n@),
            None => lookup(fields_view(fields@), name@) is None,
        },
{
    let ghost fv = fields_view(fields@);
    proof {
        assert(fv.skip(0) =~= fv);
    }
    let mut i: usize = 0;
    while i < fields.len()
        invariant
            fv == fields_view(fields@),
            fv.len() == fields@.len(),
            i <= fields@.len(),
            lookup(fv, name@) == lookup(fv.skip(i as int), name@),
        decreases fields@.len() - i,
    {
        if str_eq(fields[i].0.as_str(), name) {
            proof {
                assert(fv.skip(i as int)[0] == fv[i as int]);
                assert(fv[i as int] == (fields@[i as int].0@, node_view(fields@[i as int].1)));
            }
            return Some(&fields[i].1);
        }
        proof {
            assert(fv[i as int] == (fields@[i as int].0@, node_view(fields@[i as int].1)));
            lookup_skip_step(fv, name@, i as int);
        }
        i = i + 1;
    }
    proof {
        assert(fv.skip(i as int) =~= Seq::<(Seq<char>, TreeV)>::empty());
    }
    None
}

/// The integer a scalar node carries, at 64-bit width.
fn int_node_value(n: &TreeNode) -> (r: Option<i64>)
    ensures
        match r {
            Some(v) => int_of(n@) == Some(v as int),
            None => int_of(n@) is None,
        },
{
    match n {
        TreeNode::Byte(x) => Some(*x as i64),
        TreeNode::Short(x) => Some(*x as i64),
        TreeNode::Int(x) => Some(*x as i64),
        TreeNode::Long(x) => Some(*x),
        _ => None,
    }
}

/// Decodes an optional bounded integer field, exactly as [`opt_int_field`]
/// denotes.
fn get_opt_int(fields: &Vec<(String, TreeNode)>, name: &str, lo: i64, hi: i64) -> (r: Result<
    Option<i64>,
    DecodeError,
>)
    ensures
        match r {
            Ok(Some(v)) => opt_int_field(fields_view(fields@), name@, lo as int, hi as int)
                == Ok::<Option<int>, DecodeError>(Some(v as int)) && lo <= v <= hi,
            Ok(None) => opt_int_field(fields_view(fields@), name@, lo as int, hi as int)
                == Ok::<Option<int>, DecodeError>(None),
            Err(e) => opt_int_field(fields_view(fields@), name@, lo as int, hi as int)
                == Err::<Option<int>, DecodeError>(e),
        },
{
    proof {
        reveal(crate::item::opt_int_field);
    }
    match find_field(fields, name) {
        None => Ok(None),
        Some(n) => match int_node_value(n) {
            None => Err(DecodeError::Malformed),
            Some(v) => if lo <= v && v <= hi {
                Ok(Some(v))
            } else {
                Err(DecodeError::OutOfRange)
            },
        },
    }
}

/// Decodes an optional text field, exactly as [`opt_text_field`] denotes.
fn get_opt_text(fields: &Vec<(String, TreeNode)>, name: &str) -> (r: Result<
    Option<String>,
    DecodeError,
>)
    ensures
        match r {
            Ok(o) => opt_text_field(fields_view(fields@), name@) == Ok::<
                Option<Seq<char>>,
                DecodeError,
            >(opt_text_view(o)),
            Err(e) => opt_text_field(fields_view(fields@), name@) == Err::<
                Option<Seq<char>>,
                DecodeError,
            >(e),
        },
{
    proof {
        reveal(crate::item::opt_text_field);
    }
    match find_field(fields, name) {
        None => Ok(None),
        Some(n) => match n {
            TreeNode::Text(s) => Ok(Some(s.clone())),
            _ => Err(DecodeError::Malformed),
        },
    }
}

/// Decodes a required text field, exactly as [`req_text_field`] denotes.
fn get_req_text(fields: &Vec<(String, TreeNode)>, name: &str) -> (r: Result<String, DecodeError>)
    ensures
        match r {
            Ok(s) => req_text_field(fields_view(fields@), name@) == Ok::<Seq<char>, DecodeError>(
                s@,
            ),
            Err(e) => req_text_field(fields_view(fields@), name@) == Err::<Seq<char>, DecodeError>(
                e,
            ),
        },
{
    proof {
        reveal(crate::item::req_text_field);
    }
    match get_opt_text(fields, name) {
        Ok(Some(s)) => Ok(s),
        Ok(None) => Err(DecodeError::Malformed),
        Err(e) => Err(e),
    }
}

/// Decodes an optional flag field, exactly as [`opt_bool_field`] denotes.
fn get_opt_bool(fields: &Vec<(String, TreeNode)>, name: &str) -> (r: Result<
    Option<bool>,
    DecodeError,
>)
    ensures
        match r {
            Ok(o) => opt_bool_field(fields_view(fields@), name@) == Ok::<
                Option<bool>,
                DecodeError,
            >(o),
            Err(e) => opt_bool_field(fields_view(fields@), name@) == Err::<
                Option<bool>,
                DecodeError,
            >(e),
        },
{
    proof {
        reveal(crate::item::opt_bool_field);
    }
    match find_field(fields, name) {
        None => Ok(None),
        Some(n) => match n {
            TreeNode::Byte(x) => Ok(Some(*x != 0)),
            _ => Err(DecodeError::Malformed),
        },
    }
}

/// Decodes an optional stat counter, exactly as [`opt_stat_field`] denotes.
fn get_opt_stat(fields: &Vec<(String, TreeNode)>, name: &str) -> (r: Result<
    Option<i32>,
    DecodeError,
>)
    ensures
        match r {
            Ok(o) => opt_stat_field(fields_view(fields@), name@) == Ok::<Option<int>, DecodeError>(
                match o {
                    Some(v) => Some(v as int),
                    None => None,
                },
            ),
            Err(e) => opt_stat_field(fields_view(fields@), name@) == Err::<
                Option<int>,
                DecodeError,
            >(e),
        },
{
    proof {
        reveal(crate::item::opt_stat_field);
    }
    match find_field(fields, name) {
        None => Ok(None),
        Some(n) => match n {
            TreeNode::FloatBits(bits) => if crate::narrow::float_bits_in_i32(*bits) {
                Ok(Some(crate::narrow::float_bits_to_i32(*bits)))
            } else {
                Err(DecodeError::OutOfRange)
            },
            _ => match int_node_value(n) {
                None => Err(DecodeError::Malformed),
                Some(v) => match narrow_i32(v) {
                    Some(x) => Ok(Some(x)),
                    None => Err(DecodeError::OutOfRange),
                },
            },
        },
    }
}

/// Whether any entry after `i` repeats the key of entry `i`.
fn key_repeats(entries: &Vec<(String, TreeNode)>, i: usize) -> (r: bool)
    requires
        i < entries@.len(),
    ensures
        r == (lookup(fields_view(entries@).skip(i + 1), entries@[i as int].0@) is Some),
{
    let ghost fv = fields_view(entries@);
    let n = entries.len();
    let mut j: usize = i + 1;
    while j < n
        invariant
            fv == fields_view(entries@),
            fv.len() == entries@.len(),
            n == entries@.len(),
            i < entries@.len(),
            i < j <= entries@.len(),
            lookup(fv.skip(i + 1), entries@[i as int].0@) == lookup(
                fv.skip(j as int),
                entries@[i as int].0@,
            ),
        decreases entries@.len() - j,
    {
        if str_eq(entries[j].0.as_str(), entries[i].0.as_str()) {
            proof {
                assert(fv.skip(j as int)[0] == fv[j as int]);
                assert(fv[j as int] == (entries@[j as int].0@, node_view(entries@[j as int].1)));
            }
            return true;
        }
        proof {
            assert(fv[j as int] == (entries@[j as int].0@, node_view(entries@[j as int].1)));
            lookup_skip_step(fv, entries@[i as int].0@, j as int);
        }
        j = j + 1;
    }
    proof {
        assert(fv.skip(j as int) =~= Seq::<(Seq<char>, TreeV)>::empty());
    }
    false
}

/// Decodes a name-to-level map from entry `i` on, exactly as [`u8_map_of`]
/// denotes on the corresponding suffix.
fn u8_map_from(entries: &Vec<(String, TreeNode)>, i: usize) -> (r: Result<
    Vec<(String, u8)>,
    DecodeError,
>)
    requires
        i <= entries@.len(),
    ensures
        match r {
            Ok(m) => u8_map_of(fields_view(entries@).skip(i as int)) == Ok::<
                Seq<(Seq<char>, u8)>,
                DecodeError,
            >(m@.map_values(|p: (String, u8)| (p.0@, p.1))),
            Err(e) => u8_map_of(fields_view(entries@).skip(i as int)) == Err::<
                Seq<(Seq<char>, u8)>,
                DecodeError,
            >(e),
        },
    decreases entries@.len() - i,
{
    let ghost fv = fields_view(entries@);
    if i == entries.len() {
        let out: Vec<(String, u8)> = Vec::new();
        proof {
            assert(fv.skip(i as int) =~= Seq::<(Seq<char>, TreeV)>::empty());
            assert(out@.map_values(|p: (String, u8)| (p.0@, p.1)) =~= Seq::<
                (Seq<char>, u8),
            >::empty());
        }
        return Ok(out);
    }
    proof {
        assert(fv.skip(i as int)[0] == fv[i as int]);
        assert(fv[i as int] == (entries@[i as int].0@, node_view(entries@[i as int].1)));
        assert(fv.skip(i as int).drop_first() =~= fv.skip(i + 1));
    }
    if key_repeats(entries, i) {
        return Err(DecodeError::Malformed);
    }
    let v = match int_node_value(&entries[i].1) {
        None => {
            return Err(DecodeError::Malformed);
        },
        Some(v) => v,
    };
    let level = match narrow_u8(v) {
        None => {
            return Err(DecodeError::OutOfRange);
        },
        Some(level) => level,
    };
    match u8_map_from(entries, i + 1) {
        Err(e) => Err(e),
        Ok(mut rest) => {
            let ghost tail = rest@;
            rest.insert(0, (entries[i].0.clone(), level));
            proof {
                assert(rest@.drop_first() =~= tail);
                assert(rest@.map_values(|p: (String, u8)| (p.0@, p.1)) =~= seq![
                    (entries@[i as int].0@, level),
                ] + tail.map_values(|p: (String, u8)| (p.0@, p.1)));
            }
            Ok(rest)
        },
    }
}

/// Decodes the texts of a list's elements from `i` on, exactly as
/// [`texts_of`] denotes on the corresponding suffix.
fn texts_from(items: &Vec<TreeNode>, i: usize) -> (r: Option<Vec<String>>)
    requires
        i <= items@.len(),
    ensures
        match r {
            Some(v) => texts_of(items_view(items@).skip(i as int)) == Some(
                v@.map_values(|s: String| s@),
            ),
            None => texts_of(items_view(items@).skip(i as int)) is None,
        },
    decreases items@.len() - i,
{
    let ghost iv = items_view(items@);
    if i == items.len() {
        let out: Vec<String> = Vec::new();
        proof {
            assert(iv.skip(i as int) =~= Seq::<TreeV>::empty());
            assert(out@.map_values(|s: String| s@) =~= Seq::<Seq<char>>::empty());
        }
        return Some(out);
    }
    proof {
        assert(iv.skip(i as int)[0] == iv[i as int]);
        assert(iv[i as int] == node_view(items@[i as int]));
        assert(iv.skip(i as int).drop_first() =~= iv.skip(i + 1));
    }
    let s = match &items[i] {
        TreeNode::Text(s) => s.clone(),
        _ => {
            return None;
        },
    };
    match texts_from(items, i + 1) {
        None => None,
        Some(mut rest) => {
            let ghost tail = rest@;
            rest.insert(0, s);
            proof {
                assert(rest@.drop_first() =~= tail);
                assert(rest@.map_values(|x: String| x@) =~= seq![items@[i as int]->Text_0@]
                    + tail.map_values(|x: String| x@));
            }
            Some(rest)
        },
    }
}

/// Classifies one gem-map entry, exactly as [`gem_of`] denotes.
fn gem_of_node(n: &TreeNode) -> (r: Result<Gem, DecodeError>)
    ensures
        match r {
            Ok(g) => gem_of(n@) == Ok::<GemV, DecodeError>(g@),
            Err(e) => gem_of(n@) == Err::<GemV, DecodeError>(e),
        },
{
    match n {
        TreeNode::List(t, items) => {
            proof {
                assert(items_view(items@).skip(0) =~= items_view(items@));
            }
            match texts_from(items, 0) {
                None => Err(DecodeError::Malformed),
                Some(slots) => Ok(Gem::UnlockedSlot(slots)),
            }
        },
        TreeNode::Text(s) => Ok(Gem::SlottedGem(s.clone())),
        TreeNode::Compound(entries) => {
            let uuid = match get_req_text(entries, "uuid") {
                Ok(u) => u,
                Err(e) => {
                    return Err(e);
                },
            };
            let quality = match get_req_text(entries, "quality") {
                Ok(q) => q,
                Err(e) => {
                    return Err(e);
                },
            };
            Ok(Gem::SlottedGemStruct(SlottedGem { uuid, quality }))
        },
        _ => Err(DecodeError::Malformed),
    }
}

/// Decodes a gem map from entry `i` on, exactly as [`gem_map_of`] denotes on
/// the corresponding suffix.
fn gem_map_from(entries: &Vec<(String, TreeNode)>, i: usize) -> (r: Result<
    Vec<(String, Gem)>,
    DecodeError,
>)
    requires
        i <= entries@.len(),
    ensures
        match r {
            Ok(m) => gem_map_of(fields_view(entries@).skip(i as int)) == Ok::<
                Seq<(Seq<char>, GemV)>,
                DecodeError,
            >(m@.map_values(|p: (String, Gem)| (p.0@, p.1@))),
            Err(e) => gem_map_of(fields_view(entries@).skip(i as int)) == Err::<
                Seq<(Seq<char>, GemV)>,
                DecodeError,
            >(e),
        },
    decreases entries@.len() - i,
{
    let ghost fv = fields_view(entries@);
    if i == entries.len() {
        let out: Vec<(String, Gem)> = Vec::new();
        proof {
            assert(fv.skip(i as int) =~= Seq::<(Seq<char>, TreeV)>::empty());
            assert(out@.map_values(|p: (String, Gem)| (p.0@, p.1@)) =~= Seq::<
                (Seq<char>, GemV),
            >::empty());
        }
        return Ok(out);
    }
    proof {
        assert(fv.skip(i as int)[0] == fv[i as int]);
        assert(fv[i as int] == (entries@[i as int].0@, node_view(entries@[i as int].1)));
        assert(fv.skip(i as int).drop_first() =~= fv.skip(i + 1));
    }
    if key_repeats(entries, i) {
        return Err(DecodeError::Malformed);
    }
    let g = match gem_of_node(&entries[i].1) {
        Ok(g) => g,
        Err(e) => {
            return Err(e);
        },
    };
    match gem_map_from(entries, i + 1) {
        Err(e) => Err(e),
        Ok(mut rest) => {
            let ghost tail = rest@;
            let ghost gv = g@;
            rest.insert(0, (entries[i].0.clone(), g));
            proof {
                assert(rest@.drop_first() =~= tail);
                assert(rest@.map_values(|p: (String, Gem)| (p.0@, p.1@)) =~= seq![
                    (entries@[i as int].0@, gv),
                ] + tail.map_values(|p: (String, Gem)| (p.0@, p.1@)));
            }
            Ok(rest)
        },
    }
}

/// Decodes an optional name-to-level map field, exactly as
/// [`opt_u8_map_field`] denotes.
fn get_opt_u8_map(fields: &Vec<(String, TreeNode)>, name: &str) -> (r: Result<
    Option<Vec<(String, u8)>>,
    DecodeError,
>)
    ensures
        match r {
            Ok(o) => opt_u8_map_field(fields_view(fields@), name@) == Ok::<
                Option<Seq<(Seq<char>, u8)>>,
                DecodeError,
            >(opt_u8_map_view(o)),
            Err(e) => opt_u8_map_field(fields_view(fields@), name@) == Err::<
                Option<Seq<(Seq<char>, u8)>>,
                DecodeError,
            >(e),
        },
{
    proof {
        reveal(crate::item::opt_u8_map_field);
    }
    match find_field(fields, name) {
        None => Ok(None),
        Some(n) => match n {
            TreeNode::Compound(entries) => {
                proof {
                    assert(fields_view(entries@).skip(0) =~= fields_view(entries@));
                }
                match u8_map_from(entries, 0) {
                    Err(e) => Err(e),
                    Ok(m) => Ok(Some(m)),
                }
            },
            _ => Err(DecodeError::Malformed),
        },
    }
}

/// Decodes an optional gem map field, exactly as [`opt_gem_map_field`]
/// denotes.
fn get_opt_gem_map(fields: &Vec<(String, TreeNode)>, name: &str) -> (r: Result<
    Option<Vec<(String, Gem)>>,
    DecodeError,
>)
    ensures
        match r {
            Ok(o) => opt_gem_map_field(fields_view(fields@), name@) == Ok::<
                Option<Seq<(Seq<char>, GemV)>>,
                DecodeError,
            >(opt_gem_map_view(o)),
            Err(e) => opt_gem_map_field(fields_view(fields@), name@) == Err::<
                Option<Seq<(Seq<char>, GemV)>>,
                DecodeError,
            >(e),
        },
{
    proof {
        reveal(crate::item::opt_gem_map_field);
    }
    match find_field(fields, name) {
        None => Ok(None),
        Some(n) => match n {
            TreeNode::Compound(entries) => {
                proof {
                    assert(fields_view(entries@).skip(0) =~= fields_view(entries@));
                }
                match gem_map_from(entries, 0) {
                    Err(e) => Err(e),
                    Ok(m) => Ok(Some(m)),
                }
            },
            _ => Err(DecodeError::Malformed),
        },
    }
}

/// Decodes an optional creation timestamp, exactly as [`opt_ts_field`]
/// denotes.
fn get_opt_ts(fields: &Vec<(String, TreeNode)>, name: &str) -> (r: Result<
    Option<HypixelTimestamp>,
    DecodeError,
>)
    ensures
        match r {
            Ok(o) => opt_ts_field(fields_view(fields@), name@) == Ok::<
                Option<HypixelTimestampV>,
                DecodeError,
            >(opt_ts_view(o)),
            Err(e) => opt_ts_field(fields_view(fields@), name@) == Err::<
                Option<HypixelTimestampV>,
                DecodeError,
            >(e),
        },
{
    proof {
        reveal(crate::item::opt_ts_field);
    }
    match find_field(fields, name) {
        None => Ok(None),
        Some(n) => match n {
            TreeNode::Text(s) => Ok(Some(HypixelTimestamp::TimeStamp(s.clone()))),
            _ => match int_node_value(n) {
                Some(v) => Ok(Some(HypixelTimestamp::Timestamp(v))),
                None => Err(DecodeError::Malformed),
            },
        },
    }
}

/// Decodes one outer enchantment entry, exactly as [`ench_entry_of`]
/// denotes.
fn ench_entry_of_node(n: &TreeNode) -> (r: Result<MinecraftEnchant, DecodeError>)
    ensures
        match r {
            Ok(en) => ench_entry_of(n@) == Ok::<MinecraftEnchant, DecodeError>(en),
            Err(e) => ench_entry_of(n@) == Err::<MinecraftEnchant, DecodeError>(e),
        },
{
    proof {
        reveal(crate::item::req_int_field);
    }
    match n {
        TreeNode::Compound(entries) => {
            let lvl = match get_opt_int(entries, "lvl", 0, 65535) {
                Ok(Some(v)) => v,
                Ok(None) => {
                    return Err(DecodeError::Malformed);
                },
                Err(e) => {
                    return Err(e);
                },
            };
            let id = match get_opt_int(entries, "id", 0, 65535) {
                Ok(Some(v)) => v,
                Ok(None) => {
                    return Err(DecodeError::Malformed);
                },
                Err(e) => {
                    return Err(e);
                },
            };
            Ok(MinecraftEnchant { lvl: lvl as u16, id: id as u16 })
        },
        _ => Err(DecodeError::Malformed),
    }
}

/// Decodes the outer enchantment list from element `i` on, exactly as
/// [`ench_list_of`] denotes on the corresponding suffix.
fn ench_list_from(items: &Vec<TreeNode>, i: usize) -> (r: Result<
    Vec<MinecraftEnchant>,
    DecodeError,
>)
    requires
        i <= items@.len(),
    ensures
        match r {
            Ok(v) => ench_list_of(items_view(items@).skip(i as int)) == Ok::<
                Seq<MinecraftEnchant>,
                DecodeError,
            >(v@),
            Err(e) => ench_list_of(items_view(items@).skip(i as int)) == Err::<
                Seq<MinecraftEnchant>,
                DecodeError,
            >(e),
        },
    decreases items@.len() - i,
{
    let ghost iv = items_view(items@);
    if i == items.len() {
        let out: Vec<MinecraftEnchant> = Vec::new();
        proof {
            assert(iv.skip(i as int) =~= Seq::<TreeV>::empty());
        }
        return Ok(out);
    }
    proof {
        assert(iv.skip(i as int)[0] == iv[i as int]);
        assert(iv[i as int] == node_view(items@[i as int]));
        assert(iv.skip(i as int).drop_first() =~= iv.skip(i + 1));
    }
    let en = match ench_entry_of_node(&items[i]) {
        Ok(en) => en,
        Err(e) => {
            return Err(e);
        },
    };
    match ench_list_from(items, i + 1) {
        Err(e) => Err(e),
        Ok(mut rest) => {
            let ghost tail = rest@;
            rest.insert(0, en);
            proof {
                assert(rest@.drop_first() =~= tail);
                assert(rest@ =~= seq![en] + tail);
            }
            Ok(rest)
        },
    }
}

/// Decodes an optional outer enchantment list field, exactly as
/// [`opt_ench_field`] denotes.
fn get_opt_ench(fields: &Vec<(String, TreeNode)>, name: &str) -> (r: Result<
    Option<Vec<MinecraftEnchant>>,
    DecodeError,
>)
    ensures
        match r {
            Ok(o) => opt_ench_field(fields_view(fields@), name@) == Ok::<
                Option<Seq<MinecraftEnchant>>,
                DecodeError,
            >(opt_ench_view(o)),
            Err(e) => opt_ench_field(fields_view(fields@), name@) == Err::<
                Option<Seq<MinecraftEnchant>>,
                DecodeError,
            >(e),
        },
{
    proof {
        reveal(crate::item::opt_ench_field);
    }
    match find_field(fields, name) {
        None => Ok(None),
        Some(n) => match n {
            TreeNode::List(t, items) => {
                proof {
                    assert(items_view(items@).skip(0) =~= items_view(items@));
                }
                match ench_list_from(items, 0) {
                    Err(e) => Err(e),
                    Ok(l) => Ok(Some(l)),
                }
            },
            _ => Err(DecodeError::Malformed),
        },
    }
}

/// Decodes the display block, exactly as [`sp_display`] denotes.
fn decode_display(n: &TreeNode) -> (r: Result<DisplayInfo, DecodeError>)
    ensures
        match r {
            Ok(d) => sp_display(n@) == Ok::<DisplayInfoV, DecodeError>(d@),
            Err(e) => sp_display(n@) == Err::<DisplayInfoV, DecodeError>(e),
        },
{
    match n {
        TreeNode::Compound(fields) => {
            let lore = match find_field(fields, "Lore") {
                None => {
                    return Err(DecodeError::Malformed);
                },
                Some(ln) => match ln {
                    TreeNode::List(t, items) => {
                        proof {
                            assert(items_view(items@).skip(0) =~= items_view(items@));
                        }
                        match texts_from(items, 0) {
                            None => {
                                return Err(DecodeError::Malformed);
                            },
                            Some(lore) => lore,
                        }
                    },
                    _ => {
                        return Err(DecodeError::Malformed);
                    },
                },
            };
            let color = match get_opt_int(fields, "color", 0, u32::MAX as i64) {
                Err(e) => {
                    return Err(e);
                },
                Ok(None) => None,
                Ok(Some(c)) => Some(c as u32),
            };
            let name = match get_req_text(fields, "Name") {
                Err(e) => {
                    return Err(e);
                },
                Ok(name) => name,
            };
            Ok(DisplayInfo { lore, color, name })
        },
        _ => Err(DecodeError::Malformed),
    }
}

/// Decodes the identity, timestamp, reforge, upgrade and map fields.
fn decode_extra_a(fields: &Vec<(String, TreeNode)>) -> (r: Result<
    (
        String,
        Option<String>,
        Option<HypixelTimestamp>,
        Option<bool>,
        Option<String>,
        Option<u8>,
        Option<u8>,
        Option<Vec<(String, u8)>>,
        Option<Vec<(String, Gem)>>,
    ),
    DecodeError,
>)
    ensures
        match r {
            Ok(t) => {
                let f = fields_view(fields@);
                &&& sp_extra_err_a(f) is None
                &&& req_text_field(f, "id"@) == Ok::<Seq<char>, DecodeError>(t.0@)
                &&& ok_or_none(opt_text_field(f, "uuid"@)) == opt_text_view(t.1)
                &&& ok_or_none(opt_ts_field(f, "timestamp"@)) == opt_ts_view(t.2)
                &&& ok_or_none(opt_bool_field(f, "rarity_upgrades"@)) == t.3
                &&& ok_or_none(opt_text_field(f, "modifier"@)) == opt_text_view(t.4)
                &&& as_opt_u8(ok_or_none(opt_int_field(f, "upgrade_level"@, 0, 255))) == t.5
                &&& as_opt_u8(ok_or_none(opt_int_field(f, "hot_potato_count"@, 0, 255))) == t.6
                &&& ok_or_none(opt_u8_map_field(f, "enchantments"@)) == opt_u8_map_view(t.7)
                &&& ok_or_none(opt_gem_map_field(f, "gems"@)) == opt_gem_map_view(t.8)
            },
            Err(e) => sp_extra_err_a(fields_view(fields@)) == Some(e),
        },
{
    let id = match get_req_text(fields, "id") {
        Ok(v) => v,
        Err(e) => {
            return Err(e);
        },
    };
    let uuid = match get_opt_text(fields, "uuid") {
        Ok(v) => v,
        Err(e) => {
            return Err(e);
        },
    };
    let timestamp = match get_opt_ts(fields, "timestamp") {
        Ok(v) => v,
        Err(e) => {
            return Err(e);
        },
    };
    let rarity_upgrades = match get_opt_bool(fields, "rarity_upgrades") {
        Ok(v) => v,
        Err(e) => {
            return Err(e);
        },
    };
    let modifier = match get_opt_text(fields, "modifier") {
        Ok(v) => v,
        Err(e) => {
            return Err(e);
        },
    };
    let upgrade_level = match get_opt_int(fields, "upgrade_level", 0, 255) {
        Ok(Some(v)) => Some(v as u8),
        Ok(None) => None,
        Err(e) => {
            return Err(e);
        },
    };
    let hot_potato_count = match get_opt_int(fields, "hot_potato_count", 0, 255) {
        Ok(Some(v)) => Some(v as u8),
        Ok(None) => None,
        Err(e) => {
            return Err(e);
        },
    };
    let enchantments = match get_opt_u8_map(fields, "enchantments") {
        Ok(v) => v,
        Err(e) => {
            return Err(e);
        },
    };
    let gems = match get_opt_gem_map(fields, "gems") {
        Ok(v) => v,
        Err(e) => {
            return Err(e);
        },
    };
    Ok(
        (
            id,
            uuid,
            timestamp,
            rarity_upgrades,
            modifier,
            upgrade_level,
            hot_potato_count,
            enchantments,
            gems,
        ),
    )
}

/// Decodes the dungeon, origin, color and early stat fields.
fn decode_extra_b(fields: &Vec<(String, TreeNode)>) -> (r: Result<
    (
        Option<u8>,
        Option<bool>,
        Option<String>,
        Option<String>,
        Option<u32>,
        Option<u32>,
        Option<i32>,
        Option<u32>,
        Option<u32>,
    ),
    DecodeError,
>)
    ensures
        match r {
            Ok(t) => {
                let f = fields_view(fields@);
                &&& sp_extra_err_b(f) is None
                &&& as_opt_u8(ok_or_none(opt_int_field(f, "dungeon_item_level"@, 0, 255)))
                    == t.0
                &&& ok_or_none(opt_bool_field(f, "dungeon_item"@)) == t.1
                &&& ok_or_none(opt_text_field(f, "originTag"@)) == opt_text_view(t.2)
                &&& ok_or_none(opt_text_field(f, "color"@)) == opt_text_view(t.3)
                &&& as_opt_u32(ok_or_none(opt_int_field(f, "anvil_uses"@, 0, i32::MAX as int)))
                    == t.4
                &&& as_opt_u32(
                    ok_or_none(opt_int_field(f, "pelts_earned"@, 0, i32::MAX as int)),
                ) == t.5
                &&& as_opt_i32(ok_or_none(opt_stat_field(f, "champion_combat_xp"@))) == t.6
                &&& as_opt_u32(
                    ok_or_none(opt_int_field(f, "farmed_cultivating"@, 0, i32::MAX as int)),
                ) == t.7
                &&& as_opt_u32(
                    ok_or_none(opt_int_field(f, "compact_blocks"@, 0, i32::MAX as int)),
                ) == t.8
            },
            Err(e) => sp_extra_err_b(fields_view(fields@)) == Some(e),
        },
{
    let dungeon_item_level = match get_opt_int(fields, "dungeon_item_level", 0, 255) {
        Ok(Some(v)) => Some(v as u8),
        Ok(None) => None,
        Err(e) => {
            return Err(e);
        },
    };
    let dungeon_item = match get_opt_bool(fields, "dungeon_item") {
        Ok(v) => v,
        Err(e) => {
            return Err(e);
        },
    };
    let origin_tag = match get_opt_text(fields, "originTag") {
        Ok(v) => v,
        Err(e) => {
            return Err(e);
        },
    };
    let color = match get_opt_text(fields, "color") {
        Ok(v) => v,
        Err(e) => {
            return Err(e);
        },
    };
    let anvil_uses = match get_opt_int(fields, "anvil_uses", 0, i32::MAX as i64) {
        Ok(Some(v)) => Some(v as u32),
        Ok(None) => None,
        Err(e) => {
            return Err(e);
        },
    };
    let pelts_earned = match get_opt_int(fields, "pelts_earned", 0, i32::MAX as i64) {
        Ok(Some(v)) => Some(v as u32),
        Ok(None) => None,
        Err(e) => {
            return Err(e);
        },
    };
    let champion_combat_xp = match get_opt_stat(fields, "champion_combat_xp") {
        Ok(v) => v,
        Err(e) => {
            return Err(e);
        },
    };
    let farmed_cultivating = match get_opt_int(fields, "farmed_cultivating", 0, i32::MAX as i64) {
        Ok(Some(v)) => Some(v as u32),
        Ok(None) => None,
        Err(e) => {
            return Err(e);
        },
    };
    let compact_blocks = match get_opt_int(fields, "compact_blocks", 0, i32::MAX as i64) {
        Ok(Some(v)) => Some(v as u32),
        Ok(None) => None,
        Err(e) => {
            return Err(e);
        },
    };
    Ok(
        (
            dungeon_item_level,
            dungeon_item,
            origin_tag,
            color,
            anvil_uses,
            pelts_earned,
            champion_combat_xp,
            farmed_cultivating,
            compact_blocks,
        ),
    )
}

/// Decodes the late stat, rune, pet and raffle fields.
fn decode_extra_c(fields: &Vec<(String, TreeNode)>) -> (r: Result<
    (
        Option<u32>,
        Option<u32>,
        Option<u32>,
        Option<Vec<(String, u8)>>,
        Option<String>,
        Option<u32>,
        Option<String>,
        Option<String>,
    ),
    DecodeError,
>)
    ensures
        match r {
            Ok(t) => {
                let f = fields_view(fields@);
                &&& sp_extra_err_c(f) is None
                &&& as_opt_u32(
                    ok_or_none(opt_int_field(f, "hecatomb_s_runs"@, 0, i32::MAX as int)),
                ) == t.0
                &&& as_opt_u32(
                    ok_or_none(opt_int_field(f, "expertise_kills"@, 0, i32::MAX as int)),
                ) == t.1
                &&& as_opt_u32(
                    ok_or_none(
                        opt_int_field(f, "farming_for_dummies_count"@, 0, u32::MAX as int),
                    ),
                ) == t.2
                &&& ok_or_none(opt_u8_map_field(f, "runes"@)) == opt_u8_map_view(t.3)
                &&& ok_or_none(opt_text_field(f, "petInfo"@)) == opt_text_view(t.4)
                &&& as_opt_u32(ok_or_none(opt_int_field(f, "raffle_year"@, 0, u32::MAX as int)))
                    == t.5
                &&& ok_or_none(opt_text_field(f, "raffle_win"@)) == opt_text_view(t.6)
                &&& ok_or_none(opt_text_field(f, "dye_item"@)) == opt_text_view(t.7)
            },
            Err(e) => sp_extra_err_c(fields_view(fields@)) == Some(e),
        },
{
    let hecatomb_s_runs = match get_opt_int(fields, "hecatomb_s_runs", 0, i32::MAX as i64) {
        Ok(Some(v)) => Some(v as u32),
        Ok(None) => None,
        Err(e) => {
            return Err(e);
        },
    };
    let expertise_kills = match get_opt_int(fields, "expertise_kills", 0, i32::MAX as i64) {
        Ok(Some(v)) => Some(v as u32),
        Ok(None) => None,
        Err(e) => {
            return Err(e);
        },
    };
    let farming_for_dummies_count = match get_opt_int(
        fields,
        "farming_for_dummies_count",
        0,
        u32::MAX as i64,
    ) {
        Ok(Some(v)) => Some(v as u32),
        Ok(None) => None,
        Err(e) => {
            return Err(e);
        },
    };
    let runes = match get_opt_u8_map(fields, "runes") {
        Ok(v) => v,
        Err(e) => {
            return Err(e);
        },
    };
    let pet_info = match get_opt_text(fields, "petInfo") {
        Ok(v) => v,
        Err(e) => {
            return Err(e);
        },
    };
    let raffle_year = match get_opt_int(fields, "raffle_year", 0, u32::MAX as i64) {
        Ok(Some(v)) => Some(v as u32),
        Ok(None) => None,
        Err(e) => {
            return Err(e);
        },
    };
    let raffle_win = match get_opt_text(fields, "raffle_win") {
        Ok(v) => v,
        Err(e) => {
            return Err(e);
        },
    };
    let dye_item = match get_opt_text(fields, "dye_item") {
        Ok(v) => v,
        Err(e) => {
            return Err(e);
        },
    };
    Ok(
        (
            hecatomb_s_runs,
            expertise_kills,
            farming_for_dummies_count,
            runes,
            pet_info,
            raffle_year,
            raffle_win,
            dye_item,
        ),
    )
}

/// Decodes the attribute bag, exactly as [`sp_extra`] denotes.
#[verifier::rlimit(100)]
fn decode_extra(n: &TreeNode) -> (r: Result<ExtraAttributes, DecodeError>)
    ensures
        match r {
            Ok(a) => sp_extra(n@) == Ok::<ExtraAttributesV, DecodeError>(a@),
            Err(e) => sp_extra(n@) == Err::<ExtraAttributesV, DecodeError>(e),
        },
{
    let fields = match n {
        TreeNode::Compound(fields) => fields,
        _ => {
            return Err(DecodeError::Malformed);
        },
    };
    let ghost fv = fields_view(fields@);
    proof {
        assert(n@ == TreeV::Compound(fv));
    }
    let a = match decode_extra_a(fields) {
        Ok(t) => t,
        Err(e) => {
            return Err(e);
        },
    };
    let b = match decode_extra_b(fields) {
        Ok(t) => t,
        Err(e) => {
            return Err(e);
        },
    };
    let c = match decode_extra_c(fields) {
        Ok(t) => t,
        Err(e) => {
            return Err(e);
        },
    };
    let out = ExtraAttributes {
        id: a.0,
        uuid: a.1,
        timestamp: a.2,
        rarity_upgrades: a.3,
        modifier: a.4,
        upgrade_level: a.5,
        hot_potato_count: a.6,
        enchantments: a.7,
        gems: a.8,
        dungeon_item_level: b.0,
        dungeon_item: b.1,
        origin_tag: b.2,
        color: b.3,
        anvil_uses: b.4,
        pelts_earned: b.5,
        champion_combat_xp: b.6,
        farmed_cultivating: b.7,
        compact_blocks: b.8,
        hecatomb_s_runs: c.0,
        expertise_kills: c.1,
        farming_for_dummies_count: c.2,
        runes: c.3,
        pet_info: c.4,
        raffle_year: c.5,
        raffle_win: c.6,
        dye_item: c.7,
    };
    proof {
        assert(sp_extra_err(fv) is None);
        assert(out@ =~~= sp_extra_ok(fv));
        assert(sp_extra(n@) == Ok::<ExtraAttributesV, DecodeError>(out@));
    }
    Ok(out)
}

/// Decodes the tag, exactly as [`sp_tag`] denotes.
fn decode_tag(n: &TreeNode) -> (r: Result<Tag, DecodeError>)
    ensures
        match r {
            Ok(t) => sp_tag(n@) == Ok::<TagV, DecodeError>(t@),
            Err(e) => sp_tag(n@) == Err::<TagV, DecodeError>(e),
        },
{
    let fields = match n {
        TreeNode::Compound(fields) => fields,
        _ => {
            return Err(DecodeError::Malformed);
        },
    };
    let ench = match get_opt_ench(fields, "ench") {
        Ok(v) => v,
        Err(e) => {
            return Err(e);
        },
    };
    let unbreakable = match get_opt_bool(fields, "Unbreakable") {
        Ok(v) => v,
        Err(e) => {
            return Err(e);
        },
    };
    let hide_flags = match get_opt_int(fields, "HideFlags", 0, 255) {
        Ok(Some(v)) => Some(v as u8),
        Ok(None) => None,
        Err(e) => {
            return Err(e);
        },
    };
    let display = match find_field(fields, "display") {
        None => {
            return Err(DecodeError::Malformed);
        },
        Some(dn) => match decode_display(dn) {
            Ok(d) => d,
            Err(e) => {
                return Err(e);
            },
        },
    };
    let extra_attributes = match find_field(fields, "ExtraAttributes") {
        None => {
            return Err(DecodeError::Malformed);
        },
        Some(en) => match decode_extra(en) {
            Ok(a) => a,
            Err(e) => {
                return Err(e);
            },
        },
    };
    Ok(Tag { ench, unbreakable, hide_flags, display, extra_attributes })
}

/// Decodes one wrapper-list entry, exactly as [`sp_item_entry`] denotes.
fn decode_item_entry(n: &TreeNode) -> (r: Result<ItemData, DecodeError>)
    ensures
        match r {
            Ok(d) => sp_item_entry(n@) == Ok::<ItemDataV, DecodeError>(d@),
            Err(e) => sp_item_entry(n@) == Err::<ItemDataV, DecodeError>(e),
        },
{
    proof {
        reveal(crate::item::req_int_field);
    }
    let fields = match n {
        TreeNode::Compound(fields) => fields,
        _ => {
            return Err(DecodeError::Malformed);
        },
    };
    let id = match get_opt_int(fields, "id", 0, u32::MAX as i64) {
        Ok(Some(v)) => v as u32,
        Ok(None) => {
            return Err(DecodeError::Malformed);
        },
        Err(e) => {
            return Err(e);
        },
    };
    let count = match get_opt_int(fields, "Count", 0, 255) {
        Ok(Some(v)) => v as u8,
        Ok(None) => {
            return Err(DecodeError::Malformed);
        },
        Err(e) => {
            return Err(e);
        },
    };
    let tag = match find_field(fields, "tag") {
        None => {
            return Err(DecodeError::Malformed);
        },
        Some(tn) => match decode_tag(tn) {
            Ok(t) => t,
            Err(e) => {
                return Err(e);
            },
        },
    };
    let damage = match get_opt_int(fields, "Damage", 0, 65535) {
        Ok(Some(v)) => v as u16,
        Ok(None) => {
            return Err(DecodeError::Malformed);
        },
        Err(e) => {
            return Err(e);
        },
    };
    Ok(ItemData { id, count, tag, damage })
}

/// Decodes a root compound's children into the item record, exactly as
/// [`sp_item`] denotes. The flag reports surplus wrapper entries: the decode
/// succeeded on the first entry, but the shape anomaly should be reported.
pub fn decode_item(root: &Vec<(String, TreeNode)>) -> (r: Result<(ItemData, bool), DecodeError>)
    ensures
        match r {
            Ok(p) => sp_item(fields_view(root@)) == Ok::<(ItemDataV, bool), DecodeError>(
                (p.0@, p.1),
            ),
            Err(e) => sp_item(fields_view(root@)) == Err::<(ItemDataV, bool), DecodeError>(e),
        },
{
    let items = match find_field(root, "i") {
        None => {
            return Err(DecodeError::Malformed);
        },
        Some(n) => match n {
            TreeNode::List(t, items) => items,
            _ => {
                return Err(DecodeError::Malformed);
            },
        },
    };
    if items.len() == 0 {
        return Err(DecodeError::EmptyPayload);
    }
    proof {
        assert(items_view(items@)[0] == node_view(items@[0]));
    }
    match decode_item_entry(&items[0]) {
        Err(e) => Err(e),
        Ok(d) => Ok((d, items.len() > 1)),
    }
}

} // verus!
