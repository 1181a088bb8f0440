//! The library's cross-cutting guarantees, stated and proved once: the
//! scalar round trip of the item decode, the exhaustive gem partition, and
//! the order stability of map rendering.

use vstd::prelude::*;
use vstd::seq_lib::lemma_sorted_unique;

use crate::errors::DecodeError;
use crate::item::{lookup, req_int_field, GemV, ItemDataV};
use crate::models::{first_unlocked, map_line, rendered_gems, rendered_map, slotted_lines};
use crate::text::{lex_le_total_ordering, lex_leq};
use crate::tree::TreeV;

verus! {

/// Decoding recovers the blob's scalar fields exactly: whenever the wrapper
/// decodes to an item record, reading the scalar fields back from the same
/// tree yields the record's values — the decode loses nothing and invents
/// nothing on them. The flag is the surplus-entry anomaly: set exactly when
/// the wrapper list held more than its one promised entry.
pub proof fn lemma_item_scalar_round_trip(
    f: Seq<(Seq<char>, TreeV)>,
    d: ItemDataV,
    surplus: bool,
)
    requires
        crate::item::sp_item(f) == Ok::<(ItemDataV, bool), DecodeError>((d, surplus)),
    ensures
        ({
            &&& lookup(f, "i"@) matches Some(n)
            &&& n matches TreeV::List(t, items)
            &&& items.len() > 0
            &&& (surplus <==> items.len() > 1)
            &&& items[0] matches TreeV::Compound(g)
            &&& req_int_field(g, "id"@, 0, u32::MAX as int) == Ok::<int, DecodeError>(d.id as int)
            &&& req_int_field(g, "Count"@, 0, 255) == Ok::<int, DecodeError>(d.count as int)
            &&& req_int_field(g, "Damage"@, 0, 65535) == Ok::<int, DecodeError>(d.damage as int)
        }),
{
    reveal(crate::item::req_int_field);
    reveal(crate::item::opt_int_field);
    match lookup(f, "i"@) {
        Some(n) => match n {
            TreeV::List(t, items) => {
                assert(items.len() > 0);
                match items[0] {
                    TreeV::Compound(g) => {
                        assert(crate::item::sp_item_entry(items[0]) == Ok::<
                            ItemDataV,
                            DecodeError,
                        >(d));
                    },
                    _ => {
                        assert(false);
                    },
                }
            },
            _ => {
                assert(false);
            },
        },
        None => {
            assert(false);
        },
    }
}

/// How many entries of a gem map are unlocked-slot entries.
pub open spec fn unlocked_count(entries: Seq<(Seq<char>, GemV)>) -> int
    decreases entries.len(),
{
    if entries.len() == 0 {
        0
    } else {
        (if entries[0].1 is UnlockedSlot {
            1int
        } else {
            0int
        }) + unlocked_count(entries.drop_first())
    }
}

/// The gem classification is exhaustive and exclusive: every entry of a gem
/// map lands on exactly one side of the split. The slotted list holds one
/// line per entry of either slotted shape, and an unlocked-slot list exists
/// exactly when some unlocked-slot entry does.
pub proof fn lemma_gem_partition(entries: Seq<(Seq<char>, GemV)>)
    ensures
        0 <= unlocked_count(entries) <= entries.len(),
        slotted_lines(entries).len() + unlocked_count(entries) == entries.len(),
        first_unlocked(entries) is Some <==> unlocked_count(entries) > 0,
        rendered_gems(entries).len() == slotted_lines(entries).len(),
    decreases entries.len(),
{
    broadcast use vstd::seq_lib::group_to_multiset_ensures;

    if entries.len() > 0 {
        lemma_gem_partition(entries.drop_first());
        match entries[0].1 {
            GemV::UnlockedSlot(s) => {
                assert(first_unlocked(entries) is Some);
                assert(unlocked_count(entries) > 0);
            },
            GemV::SlottedGem(q) => {
                assert(first_unlocked(entries) == first_unlocked(entries.drop_first()));
            },
            GemV::SlottedGemStruct(g) => {
                assert(first_unlocked(entries) == first_unlocked(entries.drop_first()));
            },
        }
    }
    let lines = slotted_lines(entries);
    lex_le_total_ordering();
    lines.lemma_sort_by_ensures(lex_leq());
    assert(rendered_gems(entries).to_multiset() == lines.to_multiset());
    assert(rendered_gems(entries).len() == rendered_gems(entries).to_multiset().len());
    assert(lines.len() == lines.to_multiset().len());
}

/// Equal multisets stay equal under an element-wise map.
pub proof fn to_multiset_map_equal<A, B>(a: Seq<A>, b: Seq<A>, f: spec_fn(A) -> B)
    requires
        a.to_multiset() == b.to_multiset(),
    ensures
        a.map_values(f).to_multiset() == b.map_values(f).to_multiset(),
    decreases a.len(),
{
    broadcast use vstd::seq_lib::group_to_multiset_ensures;
    broadcast use vstd::multiset::group_multiset_axioms;

    if a.len() == 0 {
        assert(b.to_multiset().len() == 0);
        assert(b.len() == 0);
        assert(a.map_values(f) =~= b.map_values(f));
    } else {
        let x = a[0];
        assert(a.to_multiset().contains(x));
        assert(b.to_multiset().contains(x));
        assert(b.contains(x));
        let j = choose|j: int| 0 <= j < b.len() && b[j] == x;
        let a2 = a.drop_first();
        let b2 = b.remove(j);
        assert(a.remove(0) =~= a2);
        assert(a2.to_multiset() =~= a.to_multiset().remove(x));
        assert(b2.to_multiset() =~= b.to_multiset().remove(x));
        to_multiset_map_equal(a2, b2, f);
        let fa = a.map_values(f);
        let fb = b.map_values(f);
        assert(fa.remove(0) =~= a2.map_values(f));
        assert(fb.remove(j) =~= b2.map_values(f));
        assert(fa[0] == f(x));
        assert(fb[j] == f(x));
        assert(fa.remove(0).to_multiset() =~= fa.to_multiset().remove(f(x)));
        assert(fb.remove(j).to_multiset() =~= fb.to_multiset().remove(f(x)));
        assert(fa.to_multiset().contains(f(x)));
        assert(fb.to_multiset().contains(f(x)));
        assert forall|y: B| fa.to_multiset().count(y) == #[trigger] fb.to_multiset().count(
            y,
        ) by {
            if y == f(x) {
                assert(fa.to_multiset().remove(f(x)).count(y) == fa.to_multiset().count(y) - 1);
                assert(fb.to_multiset().remove(f(x)).count(y) == fb.to_multiset().count(y) - 1);
            } else {
                assert(fa.to_multiset().remove(f(x)).count(y) == fa.to_multiset().count(y));
                assert(fb.to_multiset().remove(f(x)).count(y) == fb.to_multiset().count(y));
            }
        }
        assert(fa.to_multiset() =~= fb.to_multiset());
    }
}

/// Map rendering is order-stable: two maps holding the same entries, in any
/// insertion order, render to identical line sequences.
pub proof fn lemma_render_order_stable(a: Seq<(Seq<char>, u8)>, b: Seq<(Seq<char>, u8)>)
    requires
        a.to_multiset() == b.to_multiset(),
    ensures
        rendered_map(a) == rendered_map(b),
{
    let f = |p: (Seq<char>, u8)| map_line(p);
    to_multiset_map_equal(a, b, f);
    let fa = a.map_values(f);
    let fb = b.map_values(f);
    lex_le_total_ordering();
    fa.lemma_sort_by_ensures(lex_leq());
    fb.lemma_sort_by_ensures(lex_leq());
    assert(fa.sort_by(lex_leq()).to_multiset() =~= fb.sort_by(lex_leq()).to_multiset());
    lemma_sorted_unique(fa.sort_by(lex_leq()), fb.sort_by(lex_leq()), lex_leq());
    assert(fa.sort_by(lex_leq()) == fb.sort_by(lex_leq()));
}

} // verus!
