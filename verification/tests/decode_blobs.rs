//! Decoding real blobs: base64 + gzip + tag tree, built with an independent
//! serializer, through `ah_scraper::codec::decode`.

use std::collections::HashMap;
use std::io::Write;

use ah_scraper::codec::decode;
use ah_scraper::errors::DecodeError;
use base64::Engine;
use fastnbt::Value;

fn pack_tree(tree: &Value) -> String {
    let bytes = fastnbt::to_bytes(tree).unwrap();
    let mut enc = flate2::write::GzEncoder::new(Vec::new(), flate2::Compression::default());
    enc.write_all(&bytes).unwrap();
    let gz = enc.finish().unwrap();
    base64::engine::general_purpose::STANDARD.encode(gz)
}

fn display_compound(name: &str) -> Value {
    let mut display = HashMap::new();
    display.insert(
        "Lore".to_string(),
        Value::List(vec![Value::String("line one".to_string())]),
    );
    display.insert("Name".to_string(), Value::String(name.to_string()));
    Value::Compound(display)
}

fn item_entry(extra: HashMap<String, Value>) -> Value {
    let mut tag = HashMap::new();
    tag.insert("display".to_string(), display_compound("Aspect of the End"));
    tag.insert("ExtraAttributes".to_string(), Value::Compound(extra));
    let mut item = HashMap::new();
    item.insert("id".to_string(), Value::Short(267));
    item.insert("Count".to_string(), Value::Byte(1));
    item.insert("Damage".to_string(), Value::Short(0));
    item.insert("tag".to_string(), Value::Compound(tag));
    Value::Compound(item)
}

fn base_extra() -> HashMap<String, Value> {
    let mut extra = HashMap::new();
    extra.insert("id".to_string(), Value::String("ASPECT_OF_THE_END".to_string()));
    extra
}

fn wrap(entries: Vec<Value>) -> Value {
    let mut root = HashMap::new();
    root.insert("i".to_string(), Value::List(entries));
    Value::Compound(root)
}

#[test]
fn decodes_single_item_scalars() {
    let blob = pack_tree(&wrap(vec![item_entry(base_extra())]));
    let (item, surplus) = decode(&blob).unwrap();
    assert!(!surplus);
    assert_eq!(item.id, 267);
    assert_eq!(item.count, 1);
    assert_eq!(item.damage, 0);
    assert_eq!(item.tag.extra_attributes.id, "ASPECT_OF_THE_END");
    assert_eq!(item.tag.display.name, "Aspect of the End");
    assert_eq!(item.tag.display.lore, vec!["line one".to_string()]);
}

#[test]
fn empty_wrapper_list_is_empty_payload() {
    let blob = pack_tree(&wrap(vec![]));
    assert_eq!(decode(&blob).unwrap_err(), DecodeError::EmptyPayload);
}

#[test]
fn surplus_entries_use_first_and_record_anomaly() {
    let mut second_extra = base_extra();
    second_extra.insert("id".to_string(), Value::String("OTHER_ITEM".to_string()));
    let mut second = HashMap::new();
    second.insert("id".to_string(), Value::Short(1));
    second.insert("Count".to_string(), Value::Byte(64));
    second.insert("Damage".to_string(), Value::Short(7));
    let mut tag = HashMap::new();
    tag.insert("display".to_string(), display_compound("Other"));
    tag.insert("ExtraAttributes".to_string(), Value::Compound(second_extra));
    second.insert("tag".to_string(), Value::Compound(tag));
    let blob = pack_tree(&wrap(vec![item_entry(base_extra()), Value::Compound(second)]));
    let (item, surplus) = decode(&blob).unwrap();
    assert!(surplus);
    assert_eq!(item.count, 1);
    assert_eq!(item.tag.extra_attributes.id, "ASPECT_OF_THE_END");
}

#[test]
fn missing_wrapper_list_is_malformed() {
    let mut root = HashMap::new();
    root.insert("j".to_string(), Value::List(vec![]));
    let blob = pack_tree(&Value::Compound(root));
    assert_eq!(decode(&blob).unwrap_err(), DecodeError::Malformed);
}

#[test]
fn count_beyond_stack_domain_is_out_of_range() {
    let mut item = HashMap::new();
    item.insert("id".to_string(), Value::Short(267));
    item.insert("Count".to_string(), Value::Int(300));
    item.insert("Damage".to_string(), Value::Short(0));
    let mut tag = HashMap::new();
    tag.insert("display".to_string(), display_compound("x"));
    tag.insert("ExtraAttributes".to_string(), Value::Compound(base_extra()));
    item.insert("tag".to_string(), Value::Compound(tag));
    let blob = pack_tree(&wrap(vec![Value::Compound(item)]));
    assert_eq!(decode(&blob).unwrap_err(), DecodeError::OutOfRange);
}

#[test]
fn bad_base64_is_encoding_error() {
    assert_eq!(decode("!!!not base64!!!").unwrap_err(), DecodeError::Encoding);
}

#[test]
fn bad_gzip_is_encoding_error() {
    let blob = base64::engine::general_purpose::STANDARD.encode(b"plainly not gzip");
    assert_eq!(decode(&blob).unwrap_err(), DecodeError::Encoding);
}

#[test]
fn truncated_tree_is_malformed() {
    let bytes = fastnbt::to_bytes(&wrap(vec![item_entry(base_extra())])).unwrap();
    let cut = &bytes[..bytes.len() - 4];
    let mut enc = flate2::write::GzEncoder::new(Vec::new(), flate2::Compression::default());
    enc.write_all(cut).unwrap();
    let gz = enc.finish().unwrap();
    let blob = base64::engine::general_purpose::STANDARD.encode(gz);
    assert_eq!(decode(&blob).unwrap_err(), DecodeError::Malformed);
}

#[test]
fn decodes_optional_attributes_and_float_stat() {
    let mut extra = base_extra();
    extra.insert("modifier".to_string(), Value::String("legendary".to_string()));
    extra.insert("rarity_upgrades".to_string(), Value::Byte(1));
    extra.insert("upgrade_level".to_string(), Value::Byte(5));
    extra.insert("champion_combat_xp".to_string(), Value::Float(1234.75));
    extra.insert("anvil_uses".to_string(), Value::Int(3));
    let mut ench = HashMap::new();
    ench.insert("sharpness".to_string(), Value::Byte(5));
    ench.insert("growth".to_string(), Value::Byte(6));
    extra.insert("enchantments".to_string(), Value::Compound(ench));
    let blob = pack_tree(&wrap(vec![item_entry(extra)]));
    let (item, _) = decode(&blob).unwrap();
    let bag = &item.tag.extra_attributes;
    assert_eq!(bag.modifier.as_deref(), Some("legendary"));
    assert_eq!(bag.rarity_upgrades, Some(true));
    assert_eq!(bag.upgrade_level, Some(5));
    assert_eq!(bag.champion_combat_xp, Some(1234));
    assert_eq!(bag.anvil_uses, Some(3));
    let mut ench_got = bag.enchantments.clone().unwrap();
    ench_got.sort();
    assert_eq!(
        ench_got,
        vec![("growth".to_string(), 6u8), ("sharpness".to_string(), 5u8)]
    );
    assert!(bag.uuid.is_none());
    assert!(bag.pet_info.is_none());
    assert!(bag.runes.is_none());
}

#[test]
fn absent_optional_fields_stay_absent() {
    let blob = pack_tree(&wrap(vec![item_entry(base_extra())]));
    let (item, _) = decode(&blob).unwrap();
    let bag = &item.tag.extra_attributes;
    assert!(bag.modifier.is_none());
    assert!(bag.upgrade_level.is_none());
    assert!(bag.enchantments.is_none());
    assert!(bag.gems.is_none());
    assert!(bag.color.is_none());
    assert!(item.tag.unbreakable.is_none());
    assert!(item.tag.ench.is_none());
}

fn tag_str(text: &str) -> Vec<u8> {
    let mut out = vec![(text.len() >> 8) as u8, text.len() as u8];
    out.extend_from_slice(text.as_bytes());
    out
}

fn tag_field(tag: u8, name: &str, payload: &[u8]) -> Vec<u8> {
    let mut out = vec![tag];
    out.extend(tag_str(name));
    out.extend_from_slice(payload);
    out
}

fn pack_raw(tree: Vec<u8>) -> String {
    let mut enc = flate2::write::GzEncoder::new(Vec::new(), flate2::Compression::default());
    enc.write_all(&tree).unwrap();
    let gz = enc.finish().unwrap();
    base64::engine::general_purpose::STANDARD.encode(gz)
}

#[test]
fn duplicate_map_keys_are_malformed() {
    // an enchantment compound that repeats the name "aa" — a hash-keyed
    // serializer cannot produce this, so the bytes are written by hand
    let mut ench = Vec::new();
    ench.extend(tag_field(1, "aa", &[1]));
    ench.extend(tag_field(1, "aa", &[2]));
    ench.push(0);
    let mut extra = Vec::new();
    extra.extend(tag_field(8, "id", &tag_str("SWORD")));
    extra.extend(tag_field(10, "enchantments", &ench));
    extra.push(0);
    let mut lore = vec![8u8, 0, 0, 0, 1];
    lore.extend(tag_str("line"));
    let mut display = Vec::new();
    display.extend(tag_field(9, "Lore", &lore));
    display.extend(tag_field(8, "Name", &tag_str("Sword")));
    display.push(0);
    let mut tag = Vec::new();
    tag.extend(tag_field(10, "display", &display));
    tag.extend(tag_field(10, "ExtraAttributes", &extra));
    tag.push(0);
    let mut item = Vec::new();
    item.extend(tag_field(2, "id", &[1, 11]));
    item.extend(tag_field(1, "Count", &[1]));
    item.extend(tag_field(2, "Damage", &[0, 0]));
    item.extend(tag_field(10, "tag", &tag));
    item.push(0);
    let mut root_payload = vec![9u8];
    root_payload.extend(tag_str("i"));
    root_payload.extend([10u8, 0, 0, 0, 1]);
    root_payload.extend(item);
    root_payload.push(0);
    let mut root = vec![10u8];
    root.extend(tag_str(""));
    root.extend(root_payload);
    let blob = pack_raw(root);
    assert_eq!(decode(&blob).unwrap_err(), DecodeError::Malformed);
}

#[test]
fn float_stat_outside_storage_domain_is_out_of_range() {
    let mut extra = base_extra();
    extra.insert("champion_combat_xp".to_string(), Value::Float(3.0e10));
    let blob = pack_tree(&wrap(vec![item_entry(extra)]));
    assert_eq!(decode(&blob).unwrap_err(), DecodeError::OutOfRange);
}

#[test]
fn infinite_float_stat_is_out_of_range() {
    let mut extra = base_extra();
    extra.insert("champion_combat_xp".to_string(), Value::Float(f32::INFINITY));
    let blob = pack_tree(&wrap(vec![item_entry(extra)]));
    assert_eq!(decode(&blob).unwrap_err(), DecodeError::OutOfRange);
}
