//! The device tree that the boot loader hands over: where memory is.

use vstd::prelude::*;
use vstd::utf8::valid_utf8;

use fdt::Fdt;

use crate::bytes::text_from_utf8;

verus! {

/// Why a device tree was not used.
#[derive(Debug, Copy, Clone, PartialEq, Eq, Structural)]
pub enum DtbParseError {
    NullAddress,
    InvalidMagic,
    InvalidBlob,
}

/// A region of memory.
#[derive(Debug, Clone, Copy, PartialEq, Eq, Structural)]
pub struct MemoryRegion {
    pub base: usize,
    pub size: usize,
}

pub const FDT_MAGIC: u32 = 0xd00d_feed;

/// Bytes of the header.
pub const FDT_HEADER: usize = 40;

/// Regions that are kept.
pub const MAX_REGIONS: usize = 8;

// ---------------------------------------------------------------------------
// The format
// ---------------------------------------------------------------------------

/// The big-endian word at `p`.
pub open spec fn be32(b: Seq<u8>, p: int) -> int {
    b[p] * 0x100_0000 + b[p + 1] * 0x1_0000 + b[p + 2] * 0x100 + b[p + 3]
}

/// The word at `p`, if there is one.
pub open spec fn word(b: Seq<u8>, p: int) -> Option<int> {
    if 0 <= p && p + 4 <= b.len() {
        Some(be32(b, p))
    } else {
        None
    }
}

/// Rounded up to whole words.
pub open spec fn padded(n: int) -> int {
    (n + 3) / 4 * 4
}

/// The place of the first zero byte from `p` on.
pub open spec fn zero_from(b: Seq<u8>, p: int) -> Option<int>
    decreases b.len() - p,
{
    if p < 0 || p >= b.len() {
        None
    } else if b[p] == 0 {
        Some(p)
    } else {
        zero_from(b, p + 1)
    }
}

/// Where the string at `p` ends: the place of its zero byte, if what comes before
/// is UTF-8.
pub open spec fn string_end(b: Seq<u8>, p: int) -> Option<int> {
    match zero_from(b, p) {
        Some(end) => if valid_utf8(b.subrange(p, end)) {
            Some(end)
        } else {
            None
        },
        None => None,
    }
}

/// `n` places after `p`, rounded up to whole words, but not past the end.
pub open spec fn aligned_after(s: Seq<u8>, p: int, n: int) -> int {
    if p + padded(n) <= s.len() {
        p + padded(n)
    } else {
        s.len() as int
    }
}

/// The string at `p` starts with the bytes of `name`, and `name` is followed by
/// the zero byte.
pub open spec fn string_is(b: Seq<u8>, p: int, name: Seq<u8>) -> bool {
    string_end(b, p) is Some && b.subrange(p, string_end(b, p)->0) == name
}

/// The string at `p` is `name`, or `name` followed by `@` and a unit address.
pub open spec fn base_name_is(b: Seq<u8>, p: int, name: Seq<u8>) -> bool {
    &&& string_end(b, p) is Some
    &&& !name.contains(0x40)
    &&& {
        let full = b.subrange(p, string_end(b, p)->0);
        full == name || (full.len() > name.len() && full.subrange(0, name.len() as int) == name
            && full[name.len() as int] == 0x40)
    }
}

/// The place after the fill words at `p`.
pub open spec fn nops_end(s: Seq<u8>, p: int) -> int
    decreases s.len() - p,
{
    if word(s, p) == Some(4int) {
        nops_end(s, p + 4)
    } else {
        p
    }
}

/// The place after the property at `p`. Its value lies in the structure block
/// `s`, its name in the strings block `t`.
pub open spec fn prop_end(s: Seq<u8>, t: Seq<u8>, p: int) -> Option<int> {
    if word(s, p) == Some(3int) && p + 12 <= s.len() && p + 12 + be32(s, p + 4) <= s.len()
        && string_end(t, be32(s, p + 8)) is Some {
        Some(aligned_after(s, p + 12, be32(s, p + 4)))
    } else {
        None
    }
}

/// The place after the properties at `p`.
pub open spec fn props_end(s: Seq<u8>, t: Seq<u8>, p: int) -> Option<int>
    decreases s.len() - p,
{
    match word(s, p) {
        Some(tag) => if tag == 3 {
            match prop_end(s, t, p) {
                Some(q) => if p < q <= s.len() {
                    props_end(s, t, q)
                } else {
                    None
                },
                None => None,
            }
        } else {
            Some(p)
        },
        None => None,
    }
}

/// The place after a node's name, where the name is the string at `p`.
pub open spec fn name_end(s: Seq<u8>, p: int) -> Option<int> {
    match string_end(s, p) {
        Some(end) => Some(aligned_after(s, p, end + 1 - p)),
        None => None,
    }
}

/// The place after the node at `p`.
pub open spec fn node_end(s: Seq<u8>, t: Seq<u8>, p: int) -> Option<int>
    decreases s.len() - p, 0nat,
{
    if word(s, p) != Some(1int) {
        None
    } else {
        match name_end(s, p + 4) {
            Some(named) => match props_end(s, t, named) {
                Some(inner) => if p < inner <= s.len() {
                    match children_end(s, t, inner) {
                        Some(last) => if word(s, nops_end(s, last)) == Some(2int) {
                            Some(nops_end(s, last) + 4)
                        } else {
                            None
                        },
                        None => None,
                    }
                } else {
                    None
                },
                None => None,
            },
            None => None,
        }
    }
}

/// The place after the nodes at `p`.
pub open spec fn children_end(s: Seq<u8>, t: Seq<u8>, p: int) -> Option<int>
    decreases s.len() - p, 1nat,
{
    match word(s, p) {
        Some(tag) => if tag == 1 {
            match node_end(s, t, p) {
                Some(q) => if p < q <= s.len() {
                    children_end(s, t, q)
                } else {
                    None
                },
                None => None,
            }
        } else {
            Some(p)
        },
        None => None,
    }
}

/// `memory`.
pub open spec fn memory_name() -> Seq<u8> {
    seq![0x6d, 0x65, 0x6d, 0x6f, 0x72, 0x79]
}

/// `reg`.
pub open spec fn reg_name() -> Seq<u8> {
    seq![0x72, 0x65, 0x67]
}

/// `#address-cells`.
pub open spec fn address_cells_name() -> Seq<u8> {
    seq![
        0x23,
        0x61,
        0x64,
        0x64,
        0x72,
        0x65,
        0x73,
        0x73,
        0x2d,
        0x63,
        0x65,
        0x6c,
        0x6c,
        0x73,
    ]
}

/// `#size-cells`.
pub open spec fn size_cells_name() -> Seq<u8> {
    seq![0x23, 0x73, 0x69, 0x7a, 0x65, 0x2d, 0x63, 0x65, 0x6c, 0x6c, 0x73]
}

/// Every property at `p` that gives a number of cells gives one that can be read.
pub open spec fn cells_readable(s: Seq<u8>, t: Seq<u8>, p: int) -> bool
    decreases s.len() - p,
{
    match prop_end(s, t, p) {
        Some(q) => {
            let name = be32(s, p + 8);
            &&& string_is(t, name, address_cells_name()) || string_is(t, name, size_cells_name())
                ==> be32(s, p + 4) >= 4
            &&& p < q <= s.len() && cells_readable(s, t, q)
        },
        None => true,
    }
}

/// The number of cells that the last of the properties at `p` with this name
/// gives, or `count` if there is none.
pub open spec fn last_cells(s: Seq<u8>, t: Seq<u8>, p: int, name: Seq<u8>, count: int) -> int
    decreases s.len() - p,
{
    match prop_end(s, t, p) {
        Some(q) => {
            let given = if string_is(t, be32(s, p + 8), name) {
                be32(s, p + 12)
            } else {
                count
            };
            if p < q <= s.len() {
                last_cells(s, t, q, name, given)
            } else {
                given
            }
        },
        None => count,
    }
}

/// The numbers of cells that the properties at `p` give can be read, and those
/// that count, 2 and 1 if none is given, are at most 2.
pub open spec fn cells_ok(s: Seq<u8>, t: Seq<u8>, p: int) -> bool {
    &&& cells_readable(s, t, p)
    &&& last_cells(s, t, p, address_cells_name(), 2) <= 2
    &&& last_cells(s, t, p, size_cells_name(), 1) <= 2
}

/// Among the nodes at `p`, the place of the first one named memory.
pub open spec fn memory_node(s: Seq<u8>, t: Seq<u8>, p: int) -> Option<int>
    decreases s.len() - p,
{
    if word(s, p) != Some(1int) {
        None
    } else if base_name_is(s, p + 4, memory_name()) {
        Some(p)
    } else {
        match node_end(s, t, p) {
            Some(q) => if p < q <= s.len() {
                memory_node(s, t, q)
            } else {
                None
            },
            None => None,
        }
    }
}

/// One of the properties at `p` is `reg`.
pub open spec fn has_reg(s: Seq<u8>, t: Seq<u8>, p: int) -> bool
    decreases s.len() - p,
{
    if word(s, p) == Some(4int) {
        has_reg(s, t, p + 4)
    } else {
        match prop_end(s, t, p) {
            Some(q) => string_is(t, be32(s, p + 8), reg_name()) || (p < q <= s.len() && has_reg(s, t, q)),
            None => false,
        }
    }
}

/// The structure block leads to the `reg` property of the memory node.
pub open spec fn tree_ok(s: Seq<u8>, t: Seq<u8>) -> bool {
    let start = nops_end(s, 0);
    &&& word(s, start) == Some(1int)
    &&& base_name_is(s, start + 4, Seq::empty())
    &&& {
        let props = nops_end(s, name_end(s, start + 4)->0);
        &&& props_end(s, t, props) is Some
        &&& cells_ok(s, t, props)
        &&& match memory_node(s, t, props_end(s, t, props)->0) {
            Some(node) => name_end(s, node + 4) is Some && has_reg(s, t, name_end(s, node + 4)->0),
            None => false,
        }
    }
}

/// The header is there, its magic number is right, and the blob is as long as it
/// says.
pub open spec fn header_ok(blob: Seq<u8>) -> bool {
    blob.len() >= FDT_HEADER && be32(blob, 0) == FDT_MAGIC && be32(blob, 4) <= blob.len()
}

/// A device tree that tells where memory is: the header is in order, the blocks
/// lie inside the blob, and the tree holds what it must.
pub open spec fn readable(blob: Seq<u8>) -> bool {
    &&& header_ok(blob)
    &&& be32(blob, 8) + be32(blob, 36) <= blob.len()
    &&& be32(blob, 12) + be32(blob, 32) <= blob.len()
    &&& tree_ok(
        blob.subrange(be32(blob, 8), be32(blob, 8) + be32(blob, 36)),
        blob.subrange(be32(blob, 12), be32(blob, 12) + be32(blob, 32)),
    )
}

// ---------------------------------------------------------------------------
// Reading the format
// ---------------------------------------------------------------------------

/// The word at `p`.
fn read_be32(b: &[u8], p: usize) -> (value: u32)
    requires
        p + 4 <= b@.len(),
    ensures
        value == be32(b@, p as int),
{
    b[p] as u32 * 0x100_0000 + b[p + 1] as u32 * 0x1_0000 + b[p + 2] as u32 * 0x100 + b[p
        + 3] as u32
}

/// The word at `p`, if there is one.
fn read_word(b: &[u8], p: usize) -> (value: Option<u32>)
    ensures
        match value {
            Some(v) => word(b@, p as int) == Some(v as int) && p + 4 <= b@.len() <= usize::MAX,
            None => word(b@, p as int) is None,
        },
{
    if p <= b.len() && b.len() - p >= 4 {
        Some(read_be32(b, p))
    } else {
        None
    }
}

/// The first zero byte from `p` on.
fn find_zero(b: &[u8], p: usize) -> (end: Option<usize>)
    ensures
        match end {
            Some(e) => zero_from(b@, p as int) == Some(e as int) && p <= e < b@.len() <= usize::MAX,
            None => zero_from(b@, p as int) is None,
        },
{
    let mut at: usize = p;
    while at < b.len() && b[at] != 0
        invariant
            p <= at,
            at <= b@.len() || at == p,
            zero_from(b@, p as int) == zero_from(b@, at as int),
        decreases b@.len() - at,
    {
        at = at + 1;
    }
    if at < b.len() {
        Some(at)
    } else {
        None
    }
}

/// Where the string at `p` ends.
fn find_string_end(b: &[u8], p: usize) -> (end: Option<usize>)
    ensures
        match end {
            Some(e) => string_end(b@, p as int) == Some(e as int) && p <= e < b@.len()
                <= usize::MAX,
            None => string_end(b@, p as int) is None,
        },
{
    match find_zero(b, p) {
        Some(end) => if text_from_utf8(vstd::slice::slice_subrange(b, p, end)).is_some() {
            Some(end)
        } else {
            None
        },
        None => None,
    }
}

/// The string at `p` is `name`.
fn check_string(b: &[u8], p: usize, name: &[u8]) -> (same: bool)
    ensures
        same == string_is(b@, p as int, name@),
{
    match find_string_end(b, p) {
        None => false,
        Some(end) => {
            if end - p != name.len() {
                return false;
            }
            let mut i: usize = 0;
            while i < name.len()
                invariant
                    i <= name@.len(),
                    end - p == name@.len(),
                    p <= end < b@.len(),
                    string_end(b@, p as int) == Some(end as int),
                    forall|k: int| 0 <= k < i ==> #[trigger] name@[k] == b@[p + k],
                decreases name@.len() - i,
            {
                if b[p + i] != name[i] {
                    assert(b@.subrange(p as int, end as int)[i as int] != name@[i as int]);
                    return false;
                }
                i = i + 1;
            }
            assert(b@.subrange(p as int, end as int) =~= name@);
            true
        },
    }
}

/// The string at `p` is `name`, with or without a unit address.
fn check_base_name(b: &[u8], p: usize, name: &[u8]) -> (same: bool)
    requires
        !name@.contains(0x40),
    ensures
        same == base_name_is(b@, p as int, name@),
{
    match find_string_end(b, p) {
        None => false,
        Some(end) => {
            let ghost full = b@.subrange(p as int, end as int);
            if end - p < name.len() {
                return false;
            }
            let mut i: usize = 0;
            while i < name.len()
                invariant
                    i <= name@.len(),
                    end - p >= name@.len(),
                    p <= end < b@.len(),
                    full == b@.subrange(p as int, end as int),
                    string_end(b@, p as int) == Some(end as int),
                    forall|k: int| 0 <= k < i ==> #[trigger] name@[k] == b@[p + k],
                decreases name@.len() - i,
            {
                if b[p + i] != name[i] {
                    assert(full[i as int] != name@[i as int]);
                    assert(full.len() > name@.len() ==> full.subrange(
                        0,
                        name@.len() as int,
                    )[i as int] == full[i as int]);
                    return false;
                }
                i = i + 1;
            }
            proof {
                assert(full.subrange(0, name@.len() as int) =~= name@);
                if full.len() == name@.len() {
                    assert(full =~= name@);
                }
            }
            end - p == name.len() || b[p + name.len()] == 0x40
        },
    }
}

/// The place after the fill words at `p`.
fn find_nops_end(s: &[u8], p: usize) -> (end: usize)
    ensures
        end == nops_end(s@, p as int),
        end == p || end <= s@.len(),
        p <= end,
{
    let mut at: usize = p;
    loop
        invariant
            nops_end(s@, p as int) == nops_end(s@, at as int),
            at == p || at <= s@.len(),
            p <= at,
        decreases s@.len() - at,
    {
        let tag: u32 = match read_word(s, at) {
            Some(value) => value,
            None => {
                return at;
            },
        };
        if tag != 4 {
            return at;
        }
        at = at + 4;
    }
}

/// `n` places after `p`, rounded up to whole words, but not past the end.
fn skip_aligned(s: &[u8], p: usize, n: usize) -> (end: usize)
    requires
        p + n <= s@.len(),
    ensures
        end == aligned_after(s@, p as int, n as int),
        p + n <= end <= s@.len(),
{
    let fill: usize = (4 - n % 4) % 4;
    assert(padded(n as int) == n + fill);
    if s.len() - p - n < fill {
        s.len()
    } else {
        p + n + fill
    }
}

/// The place after the property at `p`, if it lies inside the block.
fn find_prop_end(s: &[u8], t: &[u8], p: usize) -> (end: Option<usize>)
    ensures
        match end {
            Some(e) => prop_end(s@, t@, p as int) == Some(e as int) && p + 12 <= e <= s@.len(),
            None => prop_end(s@, t@, p as int) is None,
        },
{
    match read_word(s, p) {
        Some(tag) => if tag != 3 {
            return None;
        },
        None => {
            return None;
        },
    }
    if s.len() - p < 12 {
        return None;
    }
    let len: usize = read_be32(s, p + 4) as usize;
    let name: usize = read_be32(s, p + 8) as usize;
    if s.len() - p - 12 < len {
        return None;
    }
    if find_string_end(t, name).is_none() {
        return None;
    }
    Some(skip_aligned(s, p + 12, len))
}

/// The place after the properties at `p`.
fn find_props_end(s: &[u8], t: &[u8], p: usize) -> (end: Option<usize>)
    ensures
        match end {
            Some(e) => props_end(s@, t@, p as int) == Some(e as int) && p <= e <= s@.len(),
            None => props_end(s@, t@, p as int) is None,
        },
{
    let mut at: usize = p;
    loop
        invariant
            props_end(s@, t@, p as int) == props_end(s@, t@, at as int),
            p <= at,
        decreases s@.len() - at,
    {
        let tag: u32 = match read_word(s, at) {
            Some(value) => value,
            None => {
                return None;
            },
        };
        if tag != 3 {
            return Some(at);
        }
        match find_prop_end(s, t, at) {
            Some(next) => {
                at = next;
            },
            None => {
                return None;
            },
        }
    }
}

/// The place after the name at `p`.
fn find_name_end(s: &[u8], p: usize) -> (end: Option<usize>)
    ensures
        match end {
            Some(e) => name_end(s@, p as int) == Some(e as int) && p < e <= s@.len(),
            None => name_end(s@, p as int) is None,
        },
{
    match find_string_end(s, p) {
        Some(end) => Some(skip_aligned(s, p, end + 1 - p)),
        None => None,
    }
}

/// The place after the node at `p`.
fn find_node_end(s: &[u8], t: &[u8], p: usize) -> (end: Option<usize>)
    ensures
        match end {
            Some(e) => node_end(s@, t@, p as int) == Some(e as int) && p < e <= s@.len(),
            None => node_end(s@, t@, p as int) is None,
        },
    decreases s@.len() - p,
{
    match read_word(s, p) {
        Some(tag) => if tag != 1 {
            return None;
        },
        None => {
            return None;
        },
    }
    let named: usize = match find_name_end(s, p + 4) {
        Some(end) => end,
        None => {
            return None;
        },
    };
    let inner: usize = match find_props_end(s, t, named) {
        Some(end) => end,
        None => {
            return None;
        },
    };
    let mut at: usize = inner;
    loop
        invariant
            p < inner <= at <= s@.len(),
            word(s@, p as int) == Some(1int),
            name_end(s@, p + 4) == Some(named as int),
            props_end(s@, t@, named as int) == Some(inner as int),
            children_end(s@, t@, inner as int) == children_end(s@, t@, at as int),
        decreases s@.len() - at,
    {
        let tag: u32 = match read_word(s, at) {
            Some(value) => value,
            None => {
                return None;
            },
        };
        if tag != 1 {
            let last: usize = find_nops_end(s, at);
            return match read_word(s, last) {
                Some(closing) => if closing == 2 {
                    Some(last + 4)
                } else {
                    None
                },
                None => None,
            };
        }
        match find_node_end(s, t, at) {
            Some(next) => {
                at = next;
            },
            None => {
                return None;
            },
        }
    }
}

/// Whether the numbers of cells at `p` can be used.
fn check_cells(s: &[u8], t: &[u8], p: usize) -> (ok: bool)
    ensures
        ok == cells_ok(s@, t@, p as int),
{
    let address: [u8; 14] = [
        0x23,
        0x61,
        0x64,
        0x64,
        0x72,
        0x65,
        0x73,
        0x73,
        0x2d,
        0x63,
        0x65,
        0x6c,
        0x6c,
        0x73,
    ];
    let size: [u8; 11] = [0x23, 0x73, 0x69, 0x7a, 0x65, 0x2d, 0x63, 0x65, 0x6c, 0x6c, 0x73];
    assert(address@ =~= address_cells_name());
    assert(size@ =~= size_cells_name());
    let mut at: usize = p;
    let mut address_cells: u32 = 2;
    let mut size_cells: u32 = 1;
    loop
        invariant
            address@ == address_cells_name(),
            size@ == size_cells_name(),
            cells_readable(s@, t@, p as int) == cells_readable(s@, t@, at as int),
            last_cells(s@, t@, p as int, address@, 2) == last_cells(
                s@,
                t@,
                at as int,
                address@,
                address_cells as int,
            ),
            last_cells(s@, t@, p as int, size@, 1) == last_cells(
                s@,
                t@,
                at as int,
                size@,
                size_cells as int,
            ),
        decreases s@.len() - at,
    {
        let next: usize = match find_prop_end(s, t, at) {
            Some(value) => value,
            None => {
                return address_cells <= 2 && size_cells <= 2;
            },
        };
        let name: usize = read_be32(s, at + 8) as usize;
        let is_address: bool = check_string(t, name, &address);
        let is_size: bool = check_string(t, name, &size);
        if is_address || is_size {
            if read_be32(s, at + 4) < 4 {
                return false;
            }
            let given: u32 = read_be32(s, at + 12);
            if is_address {
                address_cells = given;
            }
            if is_size {
                size_cells = given;
            }
        }
        at = next;
    }
}

/// Among the nodes at `p`, the first one named memory.
fn find_memory_node(s: &[u8], t: &[u8], p: usize) -> (node: Option<usize>)
    ensures
        match node {
            Some(n) => memory_node(s@, t@, p as int) == Some(n as int) && n + 4 <= s@.len(),
            None => memory_node(s@, t@, p as int) is None,
        },
{
    let memory: [u8; 6] = [0x6d, 0x65, 0x6d, 0x6f, 0x72, 0x79];
    assert(memory@ =~= memory_name());
    let mut at: usize = p;
    loop
        invariant
            memory@ == memory_name(),
            memory_node(s@, t@, p as int) == memory_node(s@, t@, at as int),
        decreases s@.len() - at,
    {
        let tag: u32 = match read_word(s, at) {
            Some(value) => value,
            None => {
                return None;
            },
        };
        if tag != 1 {
            return None;
        }
        if check_base_name(s, at + 4, &memory) {
            return Some(at);
        }
        match find_node_end(s, t, at) {
            Some(next) => {
                at = next;
            },
            None => {
                return None;
            },
        }
    }
}

/// Whether one of the properties at `p` is `reg`.
fn check_reg(s: &[u8], t: &[u8], p: usize) -> (found: bool)
    ensures
        found == has_reg(s@, t@, p as int),
{
    let reg: [u8; 3] = [0x72, 0x65, 0x67];
    assert(reg@ =~= reg_name());
    let mut at: usize = p;
    loop
        invariant
            reg@ == reg_name(),
            has_reg(s@, t@, p as int) == has_reg(s@, t@, at as int),
        decreases s@.len() - at,
    {
        let tag: u32 = match read_word(s, at) {
            Some(value) => value,
            None => {
                return false;
            },
        };
        if tag == 4 {
            at = at + 4;
        } else {
            match find_prop_end(s, t, at) {
                Some(next) => {
                    if check_string(t, read_be32(s, at + 8) as usize, &reg) {
                        return true;
                    }
                    at = next;
                },
                None => {
                    return false;
                },
            }
        }
    }
}

/// Whether the blob is a device tree that tells where memory is.
pub fn is_readable(blob: &[u8]) -> (ok: bool)
    ensures
        ok == readable(blob@),
{
    if blob.len() < FDT_HEADER || read_be32(blob, 0) != FDT_MAGIC {
        return false;
    }
    let total: usize = read_be32(blob, 4) as usize;
    let struct_start: usize = read_be32(blob, 8) as usize;
    let strings_start: usize = read_be32(blob, 12) as usize;
    let strings_size: usize = read_be32(blob, 32) as usize;
    let struct_size: usize = read_be32(blob, 36) as usize;
    if total > blob.len() || struct_start > blob.len() || blob.len() - struct_start < struct_size
        || strings_start > blob.len() || blob.len() - strings_start < strings_size {
        return false;
    }
    let s: &[u8] = vstd::slice::slice_subrange(blob, struct_start, struct_start + struct_size);
    let t: &[u8] = vstd::slice::slice_subrange(blob, strings_start, strings_start + strings_size);
    let start: usize = find_nops_end(s, 0);
    match read_word(s, start) {
        Some(tag) => if tag != 1 {
            return false;
        },
        None => {
            return false;
        },
    }
    let nameless: [u8; 0] = [];
    assert(nameless@ =~= Seq::<u8>::empty());
    if !check_base_name(s, start + 4, &nameless) {
        return false;
    }
    let props: usize = match find_name_end(s, start + 4) {
        Some(end) => find_nops_end(s, end),
        None => {
            return false;
        },
    };
    let children: usize = match find_props_end(s, t, props) {
        Some(end) => end,
        None => {
            return false;
        },
    };
    if !check_cells(s, t, props) {
        return false;
    }
    match find_memory_node(s, t, children) {
        Some(node) => match find_name_end(s, node + 4) {
            Some(inner) => check_reg(s, t, inner),
            None => false,
        },
        None => false,
    }
}

// ---------------------------------------------------------------------------
// The tree
// ---------------------------------------------------------------------------

/// The error type of the `fdt` crate.
#[verifier::external_type_specification]
#[verifier::external_body]
pub struct ExFdtError(fdt::FdtError);

/// Calls [`fdt::Fdt::new`]: the blob is refused if it is shorter than the header,
/// if its magic number is wrong or if it is shorter than the size that the
/// header gives. Nothing is said of which error comes.
#[verifier::external_body]
fn check_header(blob: &[u8]) -> (result: Result<(), fdt::FdtError>)
    ensures
        result is Ok <==> header_ok(blob@),
{
    Fdt::new(blob).map(|_| ())
}

/// The regions of the memory node of a device tree, as the `fdt` crate reads
/// them: address and size of each.
pub uninterp spec fn fdt_memory_regions(blob: Seq<u8>) -> Seq<(usize, Option<usize>)>;

/// Calls [`fdt::standard_nodes::Memory::regions`] on the tree: the regions depend
/// on the blob alone. The call needs a tree that leads to the `reg` property of
/// the memory node. It passes over other nodes by recursion, as deep as they are
/// nested.
#[verifier::external_body]
fn read_memory_regions(blob: &[u8]) -> (regions: Vec<(usize, Option<usize>)>)
    requires
        readable(blob@),
    ensures
        regions@ == fdt_memory_regions(blob@),
{
    match Fdt::new(blob) {
        Ok(tree) => tree.memory().regions().map(|r| (r.starting_address as usize, r.size)).collect(),
        Err(_) => Vec::new(),
    }
}

/// The regions that have a size.
pub open spec fn sized_regions(regions: Seq<(usize, Option<usize>)>) -> Seq<MemoryRegion>
    decreases regions.len(),
{
    if regions.len() == 0 {
        Seq::empty()
    } else {
        let before = sized_regions(regions.drop_last());
        match regions.last() {
            (base, Some(size)) => if size > 0 {
                before.push(MemoryRegion { base, size })
            } else {
                before
            },
            (base, None) => before,
        }
    }
}

/// The first eight regions that have a size.
pub open spec fn kept_regions(regions: Seq<(usize, Option<usize>)>) -> Seq<MemoryRegion> {
    let sized = sized_regions(regions);
    if sized.len() <= MAX_REGIONS {
        sized
    } else {
        sized.subrange(0, MAX_REGIONS as int)
    }
}

/// The bytes of all regions together.
pub open spec fn region_bytes(regions: Seq<MemoryRegion>) -> int
    decreases regions.len(),
{
    if regions.len() == 0 {
        0
    } else {
        region_bytes(regions.drop_last()) + regions.last().size
    }
}

/// What the device tree told.
#[derive(Clone, Copy)]
pub struct DeviceTreeInfo {
    pub memory_regions: [Option<MemoryRegion>; 8],
    pub memory_region_count: usize,
    pub total_memory: usize,
    pub dtb_start: usize,
    pub dtb_size: usize,
}

impl DeviceTreeInfo {
    /// The first regions are there.
    pub open spec fn wf(self) -> bool {
        &&& self.memory_region_count <= MAX_REGIONS
        &&& forall|i: int|
            0 <= i < self.memory_region_count ==> (#[trigger] self.memory_regions@[i]) is Some
    }

    /// The regions.
    pub open spec fn regions(self) -> Seq<MemoryRegion> {
        Seq::new(self.memory_region_count as nat, |i: int| self.memory_regions@[i]->0)
    }

    /// Nothing is known.
    pub fn empty() -> (info: Self)
        ensures
            info.wf(),
            info.regions() == Seq::<MemoryRegion>::empty(),
            info.memory_regions@ == Seq::new(8, |i: int| None::<MemoryRegion>),
            info.memory_region_count == 0,
            info.total_memory == 0,
            info.dtb_start == 0,
            info.dtb_size == 0,
    {
        let info = DeviceTreeInfo {
            memory_regions: [None;8],
            memory_region_count: 0,
            total_memory: 0,
            dtb_start: 0,
            dtb_size: 0,
        };
        assert(info.memory_regions@ =~= Seq::new(8, |i: int| None::<MemoryRegion>));
        assert(info.regions() =~= Seq::<MemoryRegion>::empty());
        info
    }

    /// The regions in order.
    pub fn memory_regions(&self) -> (regions: Vec<MemoryRegion>)
        requires
            self.wf(),
        ensures
            regions@ == self.regions(),
    {
        let mut regions: Vec<MemoryRegion> = Vec::new();
        let mut i: usize = 0;
        while i < self.memory_region_count
            invariant
                self.wf(),
                i <= self.memory_region_count,
                regions@ == self.regions().subrange(0, i as int),
            decreases self.memory_region_count - i,
        {
            assert(self.memory_regions@[i as int] is Some);
            match self.memory_regions[i] {
                Some(region) => {
                    regions.push(region);
                    assert(regions@ =~= self.regions().subrange(0, i + 1));
                },
                None => {},
            }
            i = i + 1;
        }
        assert(self.regions().subrange(0, i as int) =~= self.regions());
        regions
    }

    /// Take over what a device tree tells: of the regions that have a size the
    /// first eight.
    pub fn record(
        &mut self,
        dtb_addr: usize,
        dtb_size: usize,
        regions: &Vec<(usize, Option<usize>)>,
    )
        ensures
            final(self).wf(),
            final(self).regions() == kept_regions(regions@),
            final(self).total_memory == if region_bytes(kept_regions(regions@)) <= usize::MAX {
                region_bytes(kept_regions(regions@))
            } else {
                usize::MAX as int
            },
            final(self).dtb_start == dtb_addr,
            final(self).dtb_size == dtb_size,
            forall|i: int|
                kept_regions(regions@).len() <= i < 8 ==> #[trigger] final(self).memory_regions@[i]
                    == old(self).memory_regions@[i],
    {
        let mut count: usize = 0;
        let mut total: usize = 0;
        let mut i: usize = 0;
        assert(regions@.subrange(0, 0) =~= Seq::empty());
        while i < regions.len()
            invariant
                i <= regions@.len(),
                count <= MAX_REGIONS,
                ({
                    let kept = kept_regions(regions@.subrange(0, i as int));
                    &&& kept.len() == count
                    &&& total == if region_bytes(kept) <= usize::MAX {
                        region_bytes(kept)
                    } else {
                        usize::MAX as int
                    }
                    &&& forall|k: int|
                        0 <= k < count ==> #[trigger] self.memory_regions@[k] == Some(kept[k])
                }),
                forall|k: int|
                    count <= k < 8 ==> #[trigger] self.memory_regions@[k] == old(
                        self,
                    ).memory_regions@[k],
            decreases regions@.len() - i,
        {
            let ghost before = regions@.subrange(0, i as int);
            let ghost now = regions@.subrange(0, i + 1);
            proof {
                assert(now.drop_last() =~= before);
                lemma_region_bytes_positive(kept_regions(before));
                if count < MAX_REGIONS {
                    assert(kept_regions(before) == sized_regions(before));
                } else if sized_regions(now).len() > sized_regions(before).len() {
                    assert(kept_regions(now) =~= kept_regions(before));
                }
            }
            if count < MAX_REGIONS {
                let base: usize = regions[i].0;
                let size: usize = match regions[i].1 {
                    Some(size) => size,
                    None => 0,
                };
                if size > 0 {
                    let region = MemoryRegion { base, size };
                    self.memory_regions[count] = Some(region);
                    total = total.saturating_add(size);
                    count = count + 1;
                    proof {
                        assert(kept_regions(now) =~= kept_regions(before).push(region));
                        assert(kept_regions(now).drop_last() =~= kept_regions(before));
                    }
                }
            }
            i = i + 1;
        }
        assert(regions@.subrange(0, i as int) =~= regions@);
        self.memory_region_count = count;
        self.total_memory = total;
        self.dtb_start = dtb_addr;
        self.dtb_size = dtb_size;
        assert(self.regions() =~= kept_regions(regions@));
    }

    /// Take one GiB of memory at 1 GiB for granted, and 64 KiB for the tree.
    pub fn assume_virt(&mut self, dtb_addr: usize)
        ensures
            final(self).wf(),
            final(self).regions() == seq![fallback_region()],
            final(self).memory_regions@ == old(self).memory_regions@.update(
                0,
                Some(fallback_region()),
            ),
            final(self).memory_region_count == 1,
            final(self).total_memory == 0x4000_0000,
            final(self).dtb_start == dtb_addr,
            final(self).dtb_size == 0x1_0000,
    {
        self.memory_regions[0] = Some(MemoryRegion { base: 0x4000_0000, size: 0x4000_0000 });
        self.memory_region_count = 1;
        self.total_memory = 0x4000_0000;
        self.dtb_start = dtb_addr;
        self.dtb_size = 0x1_0000;
        assert(self.regions() =~= seq![fallback_region()]);
    }
}

/// The region that is taken for granted without a device tree.
pub open spec fn fallback_region() -> MemoryRegion {
    MemoryRegion { base: 0x4000_0000, size: 0x4000_0000 }
}

proof fn lemma_region_bytes_positive(regions: Seq<MemoryRegion>)
    ensures
        region_bytes(regions) >= 0,
    decreases regions.len(),
{
    if regions.len() > 0 {
        lemma_region_bytes_positive(regions.drop_last());
    }
}

/// Why the device tree at an address is not used. `memory` are the bytes from
/// there on.
pub open spec fn parse_error(dtb_addr: usize, memory: Seq<u8>) -> Option<DtbParseError> {
    if dtb_addr == 0 {
        Some(DtbParseError::NullAddress)
    } else if be32(memory, 0) != FDT_MAGIC {
        Some(DtbParseError::InvalidMagic)
    } else if be32(memory, 4) < FDT_HEADER {
        Some(DtbParseError::InvalidBlob)
    } else {
        None
    }
}

/// The bytes of the device tree.
pub open spec fn blob_of(memory: Seq<u8>) -> Seq<u8> {
    memory.subrange(0, be32(memory, 4))
}

/// Read the device tree at an address; without one, take the memory of the
/// emulated board for granted.
///
/// `memory` are the bytes from the address on: as many as the header says, and
/// without the magic number only that number's place.
pub fn parse(info: &mut DeviceTreeInfo, dtb_addr: usize, memory: &[u8]) -> (result: Result<
    (),
    DtbParseError,
>)
    requires
        dtb_addr != 0 ==> memory@.len() >= 4,
        dtb_addr != 0 && be32(memory@, 0) == FDT_MAGIC ==> memory@.len() >= 8 && memory@.len()
            >= be32(memory@, 4),
        parse_error(dtb_addr, memory@) is None ==> readable(blob_of(memory@)),
    ensures
        result == match parse_error(dtb_addr, memory@) {
            Some(error) => Err::<(), DtbParseError>(error),
            None => Ok::<(), DtbParseError>(()),
        },
        final(info).wf(),
        final(info).dtb_start == dtb_addr,
        match parse_error(dtb_addr, memory@) {
            Some(_) => {
                &&& final(info).regions() == seq![fallback_region()]
                &&& final(info).memory_regions@ == old(info).memory_regions@.update(
                    0,
                    Some(fallback_region()),
                )
                &&& final(info).total_memory == 0x4000_0000
                &&& final(info).dtb_size == 0x1_0000
            },
            None => {
                let kept = kept_regions(fdt_memory_regions(blob_of(memory@)));
                &&& final(info).regions() == kept
                &&& final(info).total_memory == if region_bytes(kept) <= usize::MAX {
                    region_bytes(kept)
                } else {
                    usize::MAX as int
                }
                &&& final(info).dtb_size == be32(memory@, 4)
                &&& forall|i: int|
                    kept.len() <= i < MAX_REGIONS
                        ==> #[trigger] final(info).memory_regions@[i] == old(
                        info,
                    ).memory_regions@[i]
            },
        },
{
    let error = if dtb_addr == 0 {
        DtbParseError::NullAddress
    } else if read_be32(memory, 0) != FDT_MAGIC {
        DtbParseError::InvalidMagic
    } else {
        let size: usize = read_be32(memory, 4) as usize;
        let blob: &[u8] = vstd::slice::slice_subrange(memory, 0, size);
        proof {
            if size >= 8 {
                assert(be32(blob@, 0) == be32(memory@, 0));
                assert(be32(blob@, 4) == be32(memory@, 4));
            }
        }
        match check_header(blob) {
            Ok(()) => {
                info.record(dtb_addr, size, &read_memory_regions(blob));
                return Ok(());
            },
            Err(_) => DtbParseError::InvalidBlob,
        }
    };
    info.assume_virt(dtb_addr);
    Err(error)
}

/// Law: regions are kept in order, up to eight, and only if they have a size; nothing else
/// is kept.
pub proof fn law_sized_regions_are_kept(regions: Seq<(usize, Option<usize>)>, base: usize, size: usize)
    ensures
        sized_regions(Seq::empty()) == Seq::<MemoryRegion>::empty(),
        size > 0 ==> sized_regions(regions.push((base, Some(size)))) == sized_regions(regions).push(
            MemoryRegion { base, size },
        ),
        sized_regions(regions.push((base, Some(0)))) == sized_regions(regions),
        sized_regions(regions.push((base, None))) == sized_regions(regions),
        kept_regions(regions).len() <= 8,
        sized_regions(regions).len() <= 8 ==> kept_regions(regions) == sized_regions(regions),
        sized_regions(regions).len() > 8 ==> kept_regions(regions) == sized_regions(
            regions,
        ).subrange(0, 8),
{
    assert(regions.push((base, Some(size))).drop_last() =~= regions);
    assert(regions.push((base, Some(0usize))).drop_last() =~= regions);
    assert(regions.push((base, None::<usize>)).drop_last() =~= regions);
}

/// Law: the bytes of regions are the sum of their sizes.
pub proof fn law_region_bytes_add_up(regions: Seq<MemoryRegion>, more: MemoryRegion)
    ensures
        region_bytes(Seq::empty()) == 0,
        region_bytes(regions.push(more)) == region_bytes(regions) + more.size,
{
    assert(regions.push(more).drop_last() =~= regions);
}

/// Law: a tree at a null address, without its magic number D00DFEED, or shorter than its
/// header of forty bytes is not used; any other is. The memory that is then taken for granted
/// is one GiB at 1 GiB.
pub proof fn law_when_a_tree_is_used(addr: usize, memory: Seq<u8>)
    ensures
        parse_error(addr, memory) is None <==> addr != 0 && be32(memory, 0) == 0xD00D_FEED && be32(
            memory,
            4,
        ) >= 40,
        parse_error(addr, memory) == Some(DtbParseError::NullAddress) <==> addr == 0,
        parse_error(addr, memory) == Some(DtbParseError::InvalidMagic) <==> addr != 0 && be32(
            memory,
            0,
        ) != 0xD00D_FEED,
        fallback_region().base == 0x4000_0000,
        fallback_region().size == 0x4000_0000,
{
}

/// Law: a header is in order exactly if it is there, begins with the magic number, and claims
/// no more bytes than there are.
pub proof fn law_header_in_order(blob: Seq<u8>)
    ensures
        header_ok(blob) <==> blob.len() >= 40 && be32(blob, 0) == 0xD00D_FEED && be32(blob, 4)
            <= blob.len(),
        blob.len() < 40 ==> !readable(blob),
        readable(blob) ==> be32(blob, 8) + be32(blob, 36) <= blob.len(),
{
}

} // verus!
