//! The binary tag tree format carried inside each item blob.
//!
//! A blob, once base64-decoded and decompressed, is one named root compound in
//! a self-describing big-endian tag format: every node is introduced by a
//! one-byte tag that says whether a scalar, an array, a length-prefixed
//! string, a homogeneous list, or a compound of named children follows.
//!
//! The reader here is written and verified directly against a specification
//! parser ([`sp_root`]): the executable functions return exactly what the
//! specification functions denote, so both success and failure are pinned
//! down for every input. No node kind is domain-specific; interpreting the
//! tree as an item record happens in [`crate::item`].

use vstd::prelude::*;
use vstd::slice::{slice_subrange, slice_to_vec};
use vstd::utf8::{decode_utf8, valid_utf8};

verus! {

/// The mathematical form of a tree node, used by all contracts.
pub enum TreeV {
    Byte(i8),
    Short(i16),
    Int(i32),
    Long(i64),
    /// Raw bits of a 32-bit binary floating-point scalar. The reader keeps
    /// the bits untouched; narrowing to an integer domain is a separate,
    /// verified step.
    FloatBits(u32),
    /// Raw bits of a 64-bit binary floating-point scalar.
    DoubleBits(u64),
    Text(Seq<char>),
    ByteArr(Seq<i8>),
    IntArr(Seq<i32>),
    LongArr(Seq<i64>),
    /// Element tag, then the elements. The tag is kept so that even an empty
    /// list remembers what it was declared to hold.
    List(u8, Seq<TreeV>),
    Compound(Seq<(Seq<char>, TreeV)>),
}

/// A decoded tree node.
pub enum TreeNode {
    Byte(i8),
    Short(i16),
    Int(i32),
    Long(i64),
    FloatBits(u32),
    DoubleBits(u64),
    Text(String),
    ByteArr(Vec<i8>),
    IntArr(Vec<i32>),
    LongArr(Vec<i64>),
    List(u8, Vec<TreeNode>),
    Compound(Vec<(String, TreeNode)>),
}

/// The view of a decoded node.
pub open spec fn node_view(n: TreeNode) -> TreeV
    decreases n,
{
    match n {
        TreeNode::Byte(x) => TreeV::Byte(x),
        TreeNode::Short(x) => TreeV::Short(x),
        TreeNode::Int(x) => TreeV::Int(x),
        TreeNode::Long(x) => TreeV::Long(x),
        TreeNode::FloatBits(x) => TreeV::FloatBits(x),
        TreeNode::DoubleBits(x) => TreeV::DoubleBits(x),
        TreeNode::Text(s) => TreeV::Text(s@),
        TreeNode::ByteArr(v) => TreeV::ByteArr(v@),
        TreeNode::IntArr(v) => TreeV::IntArr(v@),
        TreeNode::LongArr(v) => TreeV::LongArr(v@),
        TreeNode::List(t, items) => TreeV::List(t, items_view(items@)),
        TreeNode::Compound(fields) => TreeV::Compound(fields_view(fields@)),
    }
}

/// Element-wise view of a list of nodes.
pub open spec fn items_view(s: Seq<TreeNode>) -> Seq<TreeV>
    decreases s,
{
    if s.len() == 0 {
        Seq::empty()
    } else {
        seq![node_view(s[0])] + items_view(s.drop_first())
    }
}

/// Element-wise view of a compound's named children.
pub open spec fn fields_view(s: Seq<(String, TreeNode)>) -> Seq<(Seq<char>, TreeV)>
    decreases s,
{
    if s.len() == 0 {
        Seq::empty()
    } else {
        seq![(s[0].0@, node_view(s[0].1))] + fields_view(s.drop_first())
    }
}

impl View for TreeNode {
    type V = TreeV;

    open spec fn view(&self) -> TreeV {
        node_view(*self)
    }
}

pub broadcast proof fn items_view_len(s: Seq<TreeNode>)
    ensures
        (#[trigger] items_view(s)).len() == s.len(),
        forall|i: int| 0 <= i < s.len() ==> items_view(s)[i] == node_view(s[i]),
    decreases s,
{
    if s.len() > 0 {
        items_view_len(s.drop_first());
    }
}

pub broadcast proof fn fields_view_len(s: Seq<(String, TreeNode)>)
    ensures
        (#[trigger] fields_view(s)).len() == s.len(),
        forall|i: int|
            0 <= i < s.len() ==> fields_view(s)[i] == (s[i].0@, node_view(s[i].1)),
    decreases s,
{
    if s.len() > 0 {
        fields_view_len(s.drop_first());
    }
}

/// The big-endian value of the two bytes at `pos`.
pub open spec fn be_u16(b: Seq<u8>, pos: int) -> int {
    b[pos] * 256 + b[pos + 1]
}

/// The big-endian value of the four bytes at `pos`.
pub open spec fn be_u32(b: Seq<u8>, pos: int) -> int {
    ((b[pos] * 256 + b[pos + 1]) * 256 + b[pos + 2]) * 256 + b[pos + 3]
}

/// The big-endian value of the eight bytes at `pos`.
pub open spec fn be_u64(b: Seq<u8>, pos: int) -> int {
    be_u32(b, pos) * 0x1_0000_0000 + be_u32(b, pos + 4)
}

/// Two's-complement reading of an unsigned 16-bit value.
pub open spec fn as_signed_16(v: int) -> int {
    if v >= 0x8000 {
        v - 0x1_0000
    } else {
        v
    }
}

/// Two's-complement reading of an unsigned 32-bit value.
pub open spec fn as_signed_32(v: int) -> int {
    if v >= 0x8000_0000 {
        v - 0x1_0000_0000
    } else {
        v
    }
}

/// Two's-complement reading of an unsigned 64-bit value.
pub open spec fn as_signed_64(v: int) -> int {
    if v >= 0x8000_0000_0000_0000 {
        v - 0x1_0000_0000_0000_0000
    } else {
        v
    }
}

/// Two's-complement reading of an unsigned 8-bit value.
pub open spec fn as_signed_8(v: int) -> int {
    if v >= 0x80 {
        v - 0x100
    } else {
        v
    }
}

/// Specification parser for one payload of the given tag starting at `pos`.
/// `None` is a structural violation; `Some((node, end))` says the payload
/// occupies exactly `pos .. end`.
pub open spec fn sp_payload(b: Seq<u8>, pos: int, tag: u8) -> Option<(TreeV, int)>
    decreases b.len() - pos, 0int, 1int,
    when 0 <= pos <= b.len()
{
    if tag == 1 {
        if pos + 1 <= b.len() {
            Some((TreeV::Byte(as_signed_8(b[pos] as int) as i8), pos + 1))
        } else {
            None
        }
    } else if tag == 2 {
        if pos + 2 <= b.len() {
            Some((TreeV::Short(as_signed_16(be_u16(b, pos)) as i16), pos + 2))
        } else {
            None
        }
    } else if tag == 3 {
        if pos + 4 <= b.len() {
            Some((TreeV::Int(as_signed_32(be_u32(b, pos)) as i32), pos + 4))
        } else {
            None
        }
    } else if tag == 4 {
        if pos + 8 <= b.len() {
            Some((TreeV::Long(as_signed_64(be_u64(b, pos)) as i64), pos + 8))
        } else {
            None
        }
    } else if tag == 5 {
        if pos + 4 <= b.len() {
            Some((TreeV::FloatBits(be_u32(b, pos) as u32), pos + 4))
        } else {
            None
        }
    } else if tag == 6 {
        if pos + 8 <= b.len() {
            Some((TreeV::DoubleBits(be_u64(b, pos) as u64), pos + 8))
        } else {
            None
        }
    } else if tag == 7 {
        if pos + 4 <= b.len() {
            let n = as_signed_32(be_u32(b, pos));
            if 0 <= n && pos + 4 + n <= b.len() {
                Some(
                    (
                        TreeV::ByteArr(
                            Seq::new(n as nat, |i: int| as_signed_8(b[pos + 4 + i] as int) as i8),
                        ),
                        pos + 4 + n,
                    ),
                )
            } else {
                None
            }
        } else {
            None
        }
    } else if tag == 8 {
        if pos + 2 <= b.len() {
            let n = be_u16(b, pos);
            if pos + 2 + n <= b.len() {
                let chunk = b.subrange(pos + 2, pos + 2 + n);
                if valid_utf8(chunk) {
                    Some((TreeV::Text(decode_utf8(chunk)), pos + 2 + n))
                } else {
                    None
                }
            } else {
                None
            }
        } else {
            None
        }
    } else if tag == 9 {
        if pos + 5 <= b.len() {
            let etag = b[pos];
            let n = as_signed_32(be_u32(b, pos + 1));
            if n <= 0 {
                Some((TreeV::List(etag, Seq::empty()), pos + 5))
            } else {
                match sp_items(b, pos + 5, etag, n) {
                    Some((items, end)) => Some((TreeV::List(etag, items), end)),
                    None => None,
                }
            }
        } else {
            None
        }
    } else if tag == 10 {
        match sp_fields(b, pos) {
            Some((fields, end)) => Some((TreeV::Compound(fields), end)),
            None => None,
        }
    } else if tag == 11 {
        if pos + 4 <= b.len() {
            let n = as_signed_32(be_u32(b, pos));
            if 0 <= n && pos + 4 + 4 * n <= b.len() {
                Some(
                    (
                        TreeV::IntArr(
                            Seq::new(
                                n as nat,
                                |i: int| as_signed_32(be_u32(b, pos + 4 + 4 * i)) as i32,
                            ),
                        ),
                        pos + 4 + 4 * n,
                    ),
                )
            } else {
                None
            }
        } else {
            None
        }
    } else if tag == 12 {
        if pos + 4 <= b.len() {
            let n = as_signed_32(be_u32(b, pos));
            if 0 <= n && pos + 4 + 8 * n <= b.len() {
                Some(
                    (
                        TreeV::LongArr(
                            Seq::new(
                                n as nat,
                                |i: int| as_signed_64(be_u64(b, pos + 4 + 8 * i)) as i64,
                            ),
                        ),
                        pos + 4 + 8 * n,
                    ),
                )
            } else {
                None
            }
        } else {
            None
        }
    } else {
        None
    }
}

/// Specification parser for `count` consecutive payloads of one tag.
pub open spec fn sp_items(b: Seq<u8>, pos: int, tag: u8, count: int) -> Option<
    (Seq<TreeV>, int),
>
    decreases b.len() - pos, count, 0int,
    when 0 <= pos <= b.len() && 0 <= count
{
    if count == 0 {
        Some((Seq::empty(), pos))
    } else {
        match sp_payload(b, pos, tag) {
            Some((node, p2)) => {
                if pos < p2 <= b.len() {
                    match sp_items(b, p2, tag, count - 1) {
                        Some((rest, end)) => Some((seq![node] + rest, end)),
                        None => None,
                    }
                } else {
                    None
                }
            },
            None => None,
        }
    }
}

/// Specification parser for a compound's children: tagged, named payloads up
/// to and including the closing end marker.
pub open spec fn sp_fields(b: Seq<u8>, pos: int) -> Option<(Seq<(Seq<char>, TreeV)>, int)>
    decreases b.len() - pos, 0int, 0int,
    when 0 <= pos <= b.len()
{
    if pos >= b.len() {
        None
    } else if b[pos] == 0 {
        Some((Seq::empty(), pos + 1))
    } else if pos + 3 <= b.len() {
        let tag = b[pos];
        let nlen = be_u16(b, pos + 1);
        if pos + 3 + nlen <= b.len() {
            let name_bytes = b.subrange(pos + 3, pos + 3 + nlen);
            if valid_utf8(name_bytes) {
                match sp_payload(b, pos + 3 + nlen, tag) {
                    Some((node, p2)) => {
                        if pos + 3 + nlen < p2 <= b.len() {
                            match sp_fields(b, p2) {
                                Some((rest, end)) => Some(
                                    (seq![(decode_utf8(name_bytes), node)] + rest, end),
                                ),
                                None => None,
                            }
                        } else {
                            None
                        }
                    },
                    None => None,
                }
            } else {
                None
            }
        } else {
            None
        }
    } else {
        None
    }
}

/// Specification parser for a whole byte stream: one named root compound,
/// consuming every byte.
pub open spec fn sp_root(b: Seq<u8>) -> Option<(Seq<char>, Seq<(Seq<char>, TreeV)>)> {
    if b.len() >= 3 && b[0] == 10 {
        let nlen = be_u16(b, 1);
        if 3 + nlen <= b.len() {
            let name_bytes = b.subrange(3, 3 + nlen);
            if valid_utf8(name_bytes) {
                match sp_fields(b, 3 + nlen) {
                    Some((fields, end)) => {
                        if end == b.len() {
                            Some((decode_utf8(name_bytes), fields))
                        } else {
                            None
                        }
                    },
                    None => None,
                }
            } else {
                None
            }
        } else {
            None
        }
    } else {
        None
    }
}

/// Reads the big-endian 16-bit value at `pos`.
fn be16(b: &Vec<u8>, pos: usize) -> (r: u16)
    requires
        pos + 2 <= b@.len(),
        b@.len() <= usize::MAX as int,
    ensures
        r as int == be_u16(b@, pos as int),
{
    (b[pos] as u16) * 256 + (b[pos + 1] as u16)
}

/// Reads the big-endian 32-bit value at `pos`.
fn be32(b: &Vec<u8>, pos: usize) -> (r: u32)
    requires
        pos + 4 <= b@.len(),
        b@.len() <= usize::MAX as int,
    ensures
        r as int == be_u32(b@, pos as int),
{
    (((b[pos] as u32) * 256 + (b[pos + 1] as u32)) * 256 + (b[pos + 2] as u32)) * 256 + (b[pos
        + 3] as u32)
}

/// Reads the big-endian 64-bit value at `pos`.
fn be64(b: &Vec<u8>, pos: usize) -> (r: u64)
    requires
        pos + 8 <= b@.len(),
        b@.len() <= usize::MAX as int,
    ensures
        r as int == be_u64(b@, pos as int),
{
    (be32(b, pos) as u64) * 0x1_0000_0000 + (be32(b, pos + 4) as u64)
}

/// Reinterprets an unsigned 8-bit value in two's complement.
fn signed8(v: u8) -> (r: i8)
    ensures
        r as int == as_signed_8(v as int),
{
    if v >= 0x80 {
        -((u8::MAX - v) as i8) - 1
    } else {
        v as i8
    }
}

/// Reinterprets an unsigned 16-bit value in two's complement.
fn signed16(v: u16) -> (r: i16)
    ensures
        r as int == as_signed_16(v as int),
{
    if v >= 0x8000 {
        -((u16::MAX - v) as i16) - 1
    } else {
        v as i16
    }
}

/// Reinterprets an unsigned 32-bit value in two's complement.
fn signed32(v: u32) -> (r: i32)
    ensures
        r as int == as_signed_32(v as int),
{
    if v >= 0x8000_0000 {
        -((u32::MAX - v) as i32) - 1
    } else {
        v as i32
    }
}

/// Reinterprets an unsigned 64-bit value in two's complement.
fn signed64(v: u64) -> (r: i64)
    ensures
        r as int == as_signed_64(v as int),
{
    if v >= 0x8000_0000_0000_0000 {
        -((u64::MAX - v) as i64) - 1
    } else {
        v as i64
    }
}

/// Reads the length-prefixed, UTF-8-checked text at `pos`; `None` mirrors the
/// specification parser's rejection.
fn read_text(b: &Vec<u8>, pos: usize) -> (r: Option<(String, usize)>)
    requires
        pos <= b@.len(),
    ensures
        match r {
            Some(p) => {
                &&& pos + 2 <= b@.len()
                &&& be_u16(b@, pos as int) == p.1 - pos - 2
                &&& p.1 <= b@.len()
                &&& valid_utf8(b@.subrange(pos + 2, p.1 as int))
                &&& p.0@ == decode_utf8(b@.subrange(pos + 2, p.1 as int))
            },
            None => {
                pos + 2 <= b@.len() ==> {
                    let n = be_u16(b@, pos as int);
                    pos + 2 + n <= b@.len() ==> !valid_utf8(
                        b@.subrange(pos + 2, pos + 2 + n),
                    )
                }
            },
        },
{
    if b.len() - pos < 2 {
        return None;
    }
    let n = be16(b, pos) as usize;
    if b.len() - (pos + 2) < n {
        return None;
    }
    let chunk = slice_to_vec(slice_subrange(b.as_slice(), pos + 2, pos + 2 + n));
    match crate::trusted::string_from_utf8(chunk) {
        Some(s) => Some((s, pos + 2 + n)),
        None => None,
    }
}

/// Parses one payload of tag `tag` at `pos`, returning exactly what
/// [`sp_payload`] denotes.
pub fn parse_payload(b: &Vec<u8>, pos: usize, tag: u8) -> (r: Option<(TreeNode, usize)>)
    requires
        pos <= b@.len(),
    ensures
        match r {
            Some(p) => {
                &&& sp_payload(b@, pos as int, tag) == Some((p.0@, p.1 as int))
                &&& pos < p.1 <= b@.len()
            },
            None => sp_payload(b@, pos as int, tag) is None,
        },
    decreases b@.len() - pos, 0int, 1int,
{
    if tag == 1 {
        if b.len() - pos >= 1 {
            Some((TreeNode::Byte(signed8(b[pos])), pos + 1))
        } else {
            None
        }
    } else if tag == 2 {
        if b.len() - pos >= 2 {
            Some((TreeNode::Short(signed16(be16(b, pos))), pos + 2))
        } else {
            None
        }
    } else if tag == 3 {
        if b.len() - pos >= 4 {
            Some((TreeNode::Int(signed32(be32(b, pos))), pos + 4))
        } else {
            None
        }
    } else if tag == 4 {
        if b.len() - pos >= 8 {
            Some((TreeNode::Long(signed64(be64(b, pos))), pos + 8))
        } else {
            None
        }
    } else if tag == 5 {
        if b.len() - pos >= 4 {
            Some((TreeNode::FloatBits(be32(b, pos)), pos + 4))
        } else {
            None
        }
    } else if tag == 6 {
        if b.len() - pos >= 8 {
            Some((TreeNode::DoubleBits(be64(b, pos)), pos + 8))
        } else {
            None
        }
    } else if tag == 7 {
        if b.len() - pos < 4 {
            return None;
        }
        let n = signed32(be32(b, pos));
        if n < 0 || b.len() - (pos + 4) < n as usize {
            return None;
        }
        let count = n as usize;
        let mut out: Vec<i8> = Vec::new();
        let mut i: usize = 0;
        while i < count
            invariant
                pos + 4 + count <= b@.len(),
                b@.len() <= usize::MAX as int,
                i <= count,
                out@.len() == i,
                forall|j: int|
                    0 <= j < i ==> out@[j] as int == as_signed_8(b@[pos + 4 + j] as int),
            decreases count - i,
        {
            out.push(signed8(b[pos + 4 + i]));
            i = i + 1;
        }
        proof {
            assert(out@ =~= Seq::new(
                count as nat,
                |j: int| as_signed_8(b@[pos as int + 4 + j] as int) as i8,
            ));
        }
        Some((TreeNode::ByteArr(out), pos + 4 + count))
    } else if tag == 8 {
        match read_text(b, pos) {
            Some((s, end)) => Some((TreeNode::Text(s), end)),
            None => None,
        }
    } else if tag == 9 {
        if b.len() - pos < 5 {
            return None;
        }
        let etag = b[pos];
        let n = signed32(be32(b, pos + 1));
        if n <= 0 {
            return Some((TreeNode::List(etag, Vec::new()), pos + 5));
        }
        match parse_items(b, pos + 5, etag, n as usize) {
            Some((items, end)) => Some((TreeNode::List(etag, items), end)),
            None => None,
        }
    } else if tag == 10 {
        match parse_fields(b, pos) {
            Some((fields, end)) => Some((TreeNode::Compound(fields), end)),
            None => None,
        }
    } else if tag == 11 {
        if b.len() - pos < 4 {
            return None;
        }
        let n = signed32(be32(b, pos));
        if n < 0 || (b.len() - (pos + 4)) / 4 < n as usize {
            proof {
                if n >= 0 {
                    assert(pos + 4 + 4 * n > b@.len());
                }
            }
            return None;
        }
        let count = n as usize;
        let mut out: Vec<i32> = Vec::new();
        let mut i: usize = 0;
        while i < count
            invariant
                pos + 4 + 4 * count <= b@.len(),
                b@.len() <= usize::MAX as int,
                i <= count,
                out@.len() == i,
                forall|j: int|
                    0 <= j < i ==> out@[j] as int == as_signed_32(
                        be_u32(b@, pos + 4 + 4 * j),
                    ),
            decreases count - i,
        {
            out.push(signed32(be32(b, pos + 4 + 4 * i)));
            i = i + 1;
        }
        proof {
            assert(out@ =~= Seq::new(
                count as nat,
                |j: int| as_signed_32(be_u32(b@, pos as int + 4 + 4 * j)) as i32,
            ));
        }
        Some((TreeNode::IntArr(out), pos + 4 + 4 * count))
    } else if tag == 12 {
        if b.len() - pos < 4 {
            return None;
        }
        let n = signed32(be32(b, pos));
        if n < 0 || (b.len() - (pos + 4)) / 8 < n as usize {
            proof {
                if n >= 0 {
                    assert(pos + 4 + 8 * n > b@.len());
                }
            }
            return None;
        }
        let count = n as usize;
        let mut out: Vec<i64> = Vec::new();
        let mut i: usize = 0;
        while i < count
            invariant
                pos + 4 + 8 * count <= b@.len(),
                b@.len() <= usize::MAX as int,
                i <= count,
                out@.len() == i,
                forall|j: int|
                    0 <= j < i ==> out@[j] as int == as_signed_64(
                        be_u64(b@, pos + 4 + 8 * j),
                    ),
            decreases count - i,
        {
            out.push(signed64(be64(b, pos + 4 + 8 * i)));
            i = i + 1;
        }
        proof {
            assert(out@ =~= Seq::new(
                count as nat,
                |j: int| as_signed_64(be_u64(b@, pos as int + 4 + 8 * j)) as i64,
            ));
        }
        Some((TreeNode::LongArr(out), pos + 4 + 8 * count))
    } else {
        None
    }
}

/// Parses `count` consecutive payloads of one tag, returning exactly what
/// [`sp_items`] denotes.
fn parse_items(b: &Vec<u8>, pos: usize, tag: u8, count: usize) -> (r: Option<
    (Vec<TreeNode>, usize),
>)
    requires
        pos <= b@.len(),
    ensures
        match r {
            Some(p) => {
                &&& sp_items(b@, pos as int, tag, count as int) == Some(
                    (items_view(p.0@), p.1 as int),
                )
                &&& pos <= p.1 <= b@.len()
            },
            None => sp_items(b@, pos as int, tag, count as int) is None,
        },
    decreases b@.len() - pos, count, 0int,
{
    if count == 0 {
        let out: Vec<TreeNode> = Vec::new();
        proof {
            assert(items_view(out@) =~= Seq::<TreeV>::empty());
        }
        return Some((out, pos));
    }
    match parse_payload(b, pos, tag) {
        Some((node, p2)) => {
            match parse_items(b, p2, tag, count - 1) {
                Some((mut rest, end)) => {
                    let ghost tail = rest@;
                    rest.insert(0, node);
                    proof {
                        assert(rest@.drop_first() =~= tail);
                        assert(items_view(rest@) == seq![node_view(node)] + items_view(tail));
                        assert(items_view(rest@) =~= seq![node@] + items_view(tail));
                    }
                    Some((rest, end))
                },
                None => None,
            }
        },
        None => None,
    }
}

/// Parses a compound's named children, returning exactly what [`sp_fields`]
/// denotes.
fn parse_fields(b: &Vec<u8>, pos: usize) -> (r: Option<(Vec<(String, TreeNode)>, usize)>)
    requires
        pos <= b@.len(),
    ensures
        match r {
            Some(p) => {
                &&& sp_fields(b@, pos as int) == Some((fields_view(p.0@), p.1 as int))
                &&& pos < p.1 <= b@.len()
            },
            None => sp_fields(b@, pos as int) is None,
        },
    decreases b@.len() - pos, 0int, 0int,
{
    if pos >= b.len() {
        return None;
    }
    let tag = b[pos];
    if tag == 0 {
        let out: Vec<(String, TreeNode)> = Vec::new();
        proof {
            assert(fields_view(out@) =~= Seq::<(Seq<char>, TreeV)>::empty());
        }
        return Some((out, pos + 1));
    }
    if b.len() - pos < 3 {
        return None;
    }
    let nlen = be16(b, pos + 1) as usize;
    if b.len() - (pos + 3) < nlen {
        return None;
    }
    let name_bytes = slice_to_vec(slice_subrange(b.as_slice(), pos + 3, pos + 3 + nlen));
    let name = match crate::trusted::string_from_utf8(name_bytes) {
        Some(s) => s,
        None => {
            return None;
        },
    };
    match parse_payload(b, pos + 3 + nlen, tag) {
        Some((node, p2)) => {
            match parse_fields(b, p2) {
                Some((mut rest, end)) => {
                    let ghost tail = rest@;
                    let ghost entry = (name, node);
                    rest.insert(0, (name, node));
                    proof {
                        assert(rest@.drop_first() =~= tail);
                        assert(rest@[0] == entry);
                        assert(fields_view(rest@) == seq![(entry.0@, node_view(entry.1))]
                            + fields_view(tail));
                        assert(fields_view(rest@) =~= seq![(entry.0@, entry.1@)] + fields_view(
                            tail,
                        ));
                    }
                    Some((rest, end))
                },
                None => None,
            }
        },
        None => None,
    }
}

/// Parses a whole decompressed blob: one named root compound that occupies
/// every byte. Returns exactly what [`sp_root`] denotes.
pub fn parse_root(b: &Vec<u8>) -> (r: Option<(String, Vec<(String, TreeNode)>)>)
    ensures
        match r {
            Some(p) => sp_root(b@) == Some((p.0@, fields_view(p.1@))),
            None => sp_root(b@) is None,
        },
{
    if b.len() < 3 {
        return None;
    }
    if b[0] != 10 {
        return None;
    }
    let nlen = be16(b, 1) as usize;
    if b.len() - 3 < nlen {
        return None;
    }
    let name_bytes = slice_to_vec(slice_subrange(b.as_slice(), 3, 3 + nlen));
    let name = match crate::trusted::string_from_utf8(name_bytes) {
        Some(s) => s,
        None => {
            return None;
        },
    };
    match parse_fields(b, 3 + nlen) {
        Some((fields, end)) => {
            if end == b.len() {
                Some((name, fields))
            } else {
                None
            }
        },
        None => None,
    }
}

} // verus!
