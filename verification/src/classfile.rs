//! A reader for the parts of a Java class file that say which classes a Mixin targets:
//! the constant pool's UTF-8 entries and the class-level `RuntimeVisibleAnnotations`.
//!
//! Offsets in the specifications are unbounded integers. The executable code keeps each
//! offset saturated at `usize::MAX`; since a buffer never reaches that length, every read
//! at a saturated offset fails exactly as it does at the true offset.
use vstd::prelude::*;
use vstd::slice::slice_subrange;
use vstd::utf8::{decode_utf8, valid_utf8};

use crate::names::{insert_all, insert_string, texts};
use crate::text::{chars_of, slice_replace_char, string_of, to_owned, str_eq};

verus! {

/// The descriptor of the `@Mixin` annotation type.
pub const MIXIN_ANNOTATION: &'static str = "Lorg/spongepowered/asm/mixin/Mixin;";

/// The name of the class attribute that holds runtime-visible annotations.
pub const RUNTIME_VISIBLE_ANNOTATIONS: &'static str = "RuntimeVisibleAnnotations";

// ---------------------------------------------------------------------------
// Specification
// ---------------------------------------------------------------------------

/// An offset as the executable code holds it.
pub open spec fn clamp(o: int) -> int {
    if o > usize::MAX as int {
        usize::MAX as int
    } else {
        o
    }
}

/// The big-endian `u16` at `o`, when two bytes are there.
pub open spec fn u16_at(b: Seq<u8>, o: int) -> Option<int> {
    if 0 <= o && o + 2 <= b.len() {
        Some(b[o] as int * 256 + b[o + 1] as int)
    } else {
        None
    }
}

/// The big-endian `u32` at `o`, when four bytes are there.
pub open spec fn u32_at(b: Seq<u8>, o: int) -> Option<int> {
    if 0 <= o && o + 4 <= b.len() {
        Some(
            b[o] as int * 16777216 + b[o + 1] as int * 65536 + b[o + 2] as int * 256 + b[o + 3]
                as int,
        )
    } else {
        None
    }
}

/// The text of a constant-pool UTF-8 entry: its decoding, or empty when it is not UTF-8.
pub open spec fn utf8_or_empty(bytes: Seq<u8>) -> Seq<char> {
    if valid_utf8(bytes) {
        decode_utf8(bytes)
    } else {
        Seq::empty()
    }
}

/// The width in bytes of the payload of a constant-pool tag other than UTF-8, if known.
pub open spec fn tag_width(tag: u8) -> Option<int> {
    if tag == 7 || tag == 8 || tag == 16 || tag == 19 || tag == 20 {
        Some(2)
    } else if tag == 3 || tag == 4 || tag == 9 || tag == 10 || tag == 11 || tag == 12 || tag == 17 || tag
        == 18 {
        Some(4)
    } else if tag == 5 || tag == 6 {
        Some(8)
    } else if tag == 15 {
        Some(3)
    } else {
        None
    }
}

/// Scans the constant pool from slot `index` at `offset`, recording UTF-8 entries in `strs`.
/// Gives the offset after the pool and the recorded strings, or `None` on a malformed pool.
pub open spec fn scan_pool(
    b: Seq<u8>,
    count: int,
    index: int,
    offset: int,
    strs: Seq<Seq<char>>,
) -> Option<(int, Seq<Seq<char>>)>
    decreases count - index,
{
    if index >= count {
        Some((offset, strs))
    } else if offset < 0 || offset >= b.len() {
        None
    } else {
        let tag = b[offset];
        let o = offset + 1;
        if tag == 1 {
            match u16_at(b, o) {
                None => None,
                Some(len) => {
                    let start = o + 2;
                    if start + len <= b.len() {
                        scan_pool(
                            b,
                            count,
                            index + 1,
                            start + len,
                            strs.update(index, utf8_or_empty(b.subrange(start, start + len))),
                        )
                    } else {
                        None
                    }
                },
            }
        } else {
            match tag_width(tag) {
                None => None,
                Some(w) => {
                    let next = index + if tag == 5 || tag == 6 {
                        2int
                    } else {
                        1int
                    };
                    scan_pool(b, count, if next > count { count } else { next }, o + w, strs)
                },
            }
        }
    }
}

/// `o + k`, saturated at `usize::MAX` as the executable offsets are.
pub open spec fn sadd(o: int, k: int) -> int {
    clamp(o + k)
}

/// Skips over the constant pool without reading string payloads (entries are not bounds-checked).
pub open spec fn skip_pool(b: Seq<u8>, count: int, index: int, offset: int) -> Option<int>
    decreases count - index,
{
    if index >= count {
        Some(offset)
    } else if offset < 0 || offset >= b.len() {
        None
    } else {
        let tag = b[offset];
        let o = offset + 1;
        if tag == 1 {
            match u16_at(b, o) {
                None => None,
                Some(len) => skip_pool(b, count, index + 1, sadd(o + 2, len)),
            }
        } else {
            match tag_width(tag) {
                None => None,
                Some(w) => {
                    let next = index + if tag == 5 || tag == 6 {
                        2int
                    } else {
                        1int
                    };
                    skip_pool(b, count, if next > count { count } else { next }, sadd(o, w))
                },
            }
        }
    }
}

/// The constant pool's strings, indexed by slot; slots that are not UTF-8 entries are empty.
pub open spec fn spec_parse_pool(b: Seq<u8>) -> Option<Seq<Seq<char>>> {
    if b.len() < 10 || b[0] != 0xCA || b[1] != 0xFE || b[2] != 0xBA || b[3] != 0xBE {
        None
    } else {
        let count = b[8] as int * 256 + b[9] as int;
        match scan_pool(b, count, 1, 10, Seq::new(count as nat, |i: int| Seq::<char>::empty())) {
            Some((_, strs)) => Some(strs),
            None => None,
        }
    }
}

/// `ConstantPool::utf8`: the string in a slot, if the slot exists.
pub open spec fn pool_get(pool: Seq<Seq<char>>, index: int) -> Option<Seq<char>> {
    if 0 <= index < pool.len() {
        Some(pool[index])
    } else {
        None
    }
}

/// Skips `n` attributes starting at `o` (a two-byte name, a four-byte length, the payload).
pub open spec fn skip_attribute_list(b: Seq<u8>, o: int, n: int) -> Option<int>
    decreases n,
{
    if n <= 0 {
        Some(o)
    } else {
        let o1 = sadd(o, 2);
        match u32_at(b, o1) {
            None => None,
            Some(len) => skip_attribute_list(b, sadd(o1 + 4, len), n - 1),
        }
    }
}

/// `skip_attributes`: an attribute count followed by the attributes.
pub open spec fn spec_skip_attributes(b: Seq<u8>, o: int) -> Option<int> {
    match u16_at(b, o) {
        None => None,
        Some(n) => skip_attribute_list(b, o + 2, n),
    }
}

/// Skips `n` fields or methods (six header bytes and an attribute table each).
pub open spec fn skip_member_list(b: Seq<u8>, o: int, n: int) -> Option<int>
    decreases n,
{
    if n <= 0 {
        Some(o)
    } else {
        match spec_skip_attributes(b, sadd(o, 6)) {
            None => None,
            Some(o2) => skip_member_list(b, o2, n - 1),
        }
    }
}

/// `skip_fields` and `skip_methods`: a count followed by that many members.
pub open spec fn spec_skip_members(b: Seq<u8>, o: int) -> Option<int> {
    match u16_at(b, o) {
        None => None,
        Some(n) => skip_member_list(b, o + 2, n),
    }
}

/// Distance to the end of an annotation, the main termination measure of element parsing.
pub open spec fn room(o: int, end: int) -> nat {
    if o < clamp(end) {
        (clamp(end) - o) as nat
    } else {
        0
    }
}

/// A `u16` read that yields 0 and does not advance when the bytes are missing.
pub open spec fn u16_or_zero(b: Seq<u8>, o: int) -> (int, int) {
    match u16_at(b, o) {
        Some(v) => (o + 2, v),
        None => (o, 0),
    }
}

/// The mixin marker when `index` names the `@Mixin` descriptor.
pub open spec fn mixin_marker(pool: Seq<Seq<char>>, index: int) -> Seq<Seq<char>> {
    if pool_get(pool, index) == Some(MIXIN_ANNOTATION@) {
        seq![MIXIN_ANNOTATION@]
    } else {
        Seq::empty()
    }
}

/// Whether a tag names a constant whose value is a two-byte index (`B C D F I J S Z s`).
pub open spec fn is_const_tag(tag: u8) -> bool {
    tag == 66 || tag == 67 || tag == 68 || tag == 70 || tag == 73 || tag == 74 || tag == 83 || tag
        == 90 || tag == 115
}

/// `parse_element_value`: the offset after one element value and the strings it yields
/// (class constants, and the marker for nested `@Mixin` annotations).
pub open spec fn spec_element(b: Seq<u8>, o: int, end: int, pool: Seq<Seq<char>>) -> (
    int,
    Seq<Seq<char>>,
)
    decreases room(o, end), 1nat, 0int,
{
    if o >= clamp(end) {
        (o, Seq::empty())
    } else {
        let tag: u8 = if 0 <= o < b.len() {
            b[o]
        } else {
            0
        };
        let o1 = o + 1;
        if is_const_tag(tag) {
            (sadd(o1, 2), Seq::empty())
        } else if tag == 99 {
            let (o2, idx) = u16_or_zero(b, o1);
            match pool_get(pool, idx) {
                Some(v) => (o2, seq![v]),
                None => (o2, Seq::empty()),
            }
        } else if tag == 101 {
            (sadd(o1, 4), Seq::empty())
        } else if tag == 64 {
            let (o2, type_index) = u16_or_zero(b, o1);
            let (o3, pairs) = u16_or_zero(b, o2);
            let (o4, vs) = spec_pairs(b, o3, end, pool, pairs);
            (o4, mixin_marker(pool, type_index) + vs)
        } else if tag == 91 {
            let (o2, count) = u16_or_zero(b, o1);
            spec_elements(b, o2, end, pool, count)
        } else {
            (o1, Seq::empty())
        }
    }
}

/// `n` element-value pairs: each skips a two-byte name index, then parses a value.
pub open spec fn spec_pairs(b: Seq<u8>, o: int, end: int, pool: Seq<Seq<char>>, n: int) -> (
    int,
    Seq<Seq<char>>,
)
    decreases room(o, end), 2nat, n,
{
    if n <= 0 {
        (o, Seq::empty())
    } else {
        let (o1, v) = spec_element(b, sadd(o, 2), end, pool);
        let next = if o1 >= o {
            o1
        } else {
            o
        };
        let (o2, w) = spec_pairs(b, next, end, pool, n - 1);
        (o2, v + w)
    }
}

/// `n` consecutive element values (an array).
pub open spec fn spec_elements(b: Seq<u8>, o: int, end: int, pool: Seq<Seq<char>>, n: int) -> (
    int,
    Seq<Seq<char>>,
)
    decreases room(o, end), 2nat, n,
{
    if n <= 0 {
        (o, Seq::empty())
    } else {
        let (o1, v) = spec_element(b, o, end, pool);
        let next = if o1 >= o {
            o1
        } else {
            o
        };
        let (o2, w) = spec_elements(b, next, end, pool, n - 1);
        (o2, v + w)
    }
}

/// `n` annotations, each a type index and its element-value pairs.
pub open spec fn spec_annotations(b: Seq<u8>, o: int, end: int, pool: Seq<Seq<char>>, n: int) -> (
    int,
    Seq<Seq<char>>,
)
    decreases n,
{
    if n <= 0 {
        (o, Seq::empty())
    } else {
        let (o1, type_index) = u16_or_zero(b, o);
        let (o2, pairs) = u16_or_zero(b, o1);
        let (o3, vs) = spec_pairs(b, o2, end, pool, pairs);
        let (o4, ws) = spec_annotations(b, o3, end, pool, n - 1);
        (o4, mixin_marker(pool, type_index) + vs + ws)
    }
}

/// `parse_annotation_values`: the strings yielded by a `RuntimeVisibleAnnotations` attribute
/// whose payload starts at `o` and is `length` bytes long.
pub open spec fn spec_annotation_values(b: Seq<u8>, o: int, length: int, pool: Seq<Seq<char>>) -> Seq<
    Seq<char>,
> {
    match u16_at(b, o) {
        None => Seq::empty(),
        Some(n) => spec_annotations(b, o + 2, sadd(o, length), pool, n).1,
    }
}

/// Walks `n` class attributes looking for `RuntimeVisibleAnnotations`.
pub open spec fn spec_attributes(b: Seq<u8>, o: int, pool: Seq<Seq<char>>, n: int) -> Option<
    Seq<Seq<char>>,
>
    decreases n,
{
    if n <= 0 {
        None
    } else {
        match u16_at(b, o) {
            None => None,
            Some(name_index) => match u32_at(b, o + 2) {
                None => None,
                Some(length) => match pool_get(pool, name_index) {
                    None => None,
                    Some(name) => if name == RUNTIME_VISIBLE_ANNOTATIONS@ {
                        Some(spec_annotation_values(b, o + 6, length, pool))
                    } else {
                        spec_attributes(b, sadd(o + 6, length), pool, n - 1)
                    },
                },
            },
        }
    }
}

/// `ConstantPool::runtime_visible_class_annotations`.
pub open spec fn spec_class_annotations(pool: Seq<Seq<char>>, b: Seq<u8>) -> Option<Seq<Seq<char>>> {
    match u16_at(b, 8) {
        None => None,
        Some(count) => match skip_pool(b, count, 1, 10) {
            None => None,
            Some(o) => {
                let o1 = sadd(o, 6);
                match u16_at(b, o1) {
                    None => None,
                    Some(interfaces) => match spec_skip_members(b, sadd(o1 + 2, interfaces * 2)) {
                        None => None,
                        Some(o2) => match spec_skip_members(b, o2) {
                            None => None,
                            Some(o3) => match u16_at(b, o3) {
                                None => None,
                                Some(n) => spec_attributes(b, o3 + 2, pool, n),
                            },
                        },
                    },
                }
            },
        },
    }
}

/// `descriptor_to_class_name`: `Lpkg/Name;` becomes `pkg.Name`; anything else (including `L;`)
/// has no class name.
pub open spec fn spec_descriptor_to_class_name(d: Seq<char>) -> Option<Seq<char>> {
    if d.len() > 2 && d[0] == 'L' && d.last() == ';' {
        Some(crate::text::replace_char(d.subrange(1, d.len() - 1), '/', '.'))
    } else {
        None
    }
}

/// The class names named by annotation values other than the marker itself.
pub open spec fn targets_of_values(values: Seq<Seq<char>>) -> Seq<Seq<char>>
    decreases values.len(),
{
    if values.len() == 0 {
        Seq::empty()
    } else {
        let rest = targets_of_values(values.drop_last());
        let v = values.last();
        if v == MIXIN_ANNOTATION@ {
            rest
        } else {
            match spec_descriptor_to_class_name(v) {
                Some(name) => rest.push(name),
                None => rest,
            }
        }
    }
}

/// The class names a class file's `@Mixin` annotation targets (in annotation order, with repeats).
pub open spec fn spec_class_targets(b: Seq<u8>) -> Seq<Seq<char>> {
    match spec_parse_pool(b) {
        None => Seq::empty(),
        Some(pool) => match spec_class_annotations(pool, b) {
            None => Seq::empty(),
            Some(values) => targets_of_values(values),
        },
    }
}

// ---------------------------------------------------------------------------
// Lemmas
// ---------------------------------------------------------------------------

/// Element parsing never moves backwards.
pub proof fn lemma_element_monotone(b: Seq<u8>, o: int, end: int, pool: Seq<Seq<char>>)
    ensures
        spec_element(b, o, end, pool).0 >= o,
    decreases room(o, end), 1nat, 0int,
{
    if o < clamp(end) {
        let tag: u8 = if 0 <= o < b.len() {
            b[o]
        } else {
            0
        };
        let o1 = o + 1;
        if tag == 64 {
            let (o2, type_index) = u16_or_zero(b, o1);
            let (o3, pairs) = u16_or_zero(b, o2);
            lemma_pairs_monotone(b, o3, end, pool, pairs);
        } else if tag == 91 {
            let (o2, count) = u16_or_zero(b, o1);
            lemma_elements_monotone(b, o2, end, pool, count);
        }
    }
}

pub proof fn lemma_pairs_monotone(b: Seq<u8>, o: int, end: int, pool: Seq<Seq<char>>, n: int)
    ensures
        spec_pairs(b, o, end, pool, n).0 >= o,
    decreases room(o, end), 2nat, n,
{
    if n > 0 {
        lemma_element_monotone(b, sadd(o, 2), end, pool);
        let (o1, v) = spec_element(b, sadd(o, 2), end, pool);
        let next = if o1 >= o {
            o1
        } else {
            o
        };
        lemma_pairs_monotone(b, next, end, pool, n - 1);
    }
}

pub proof fn lemma_elements_monotone(b: Seq<u8>, o: int, end: int, pool: Seq<Seq<char>>, n: int)
    ensures
        spec_elements(b, o, end, pool, n).0 >= o,
    decreases room(o, end), 2nat, n,
{
    if n > 0 {
        lemma_element_monotone(b, o, end, pool);
        let (o1, v) = spec_element(b, o, end, pool);
        lemma_elements_monotone(b, o1, end, pool, n - 1);
    }
}

proof fn lemma_clamp_add(o: int, k: int)
    requires
        o >= 0,
        k >= 0,
    ensures
        clamp(clamp(o) + k) == clamp(o + k),
        clamp(o) <= o,
        clamp(o) >= 0,
{
}

proof fn lemma_u16_clamp(b: Seq<u8>, o: int)
    requires
        b.len() <= usize::MAX,
        o >= 0,
    ensures
        u16_at(b, clamp(o)) == u16_at(b, o),
        u32_at(b, clamp(o)) == u32_at(b, o),
        (clamp(o) < b.len()) == (o < b.len()),
{
}

// ---------------------------------------------------------------------------
// Executable code
// ---------------------------------------------------------------------------

/// `a + b`, saturated at `usize::MAX`.
fn sat_add(a: usize, b: usize) -> (res: usize)
    ensures
        res == clamp(a + b),
{
    if a > usize::MAX - b {
        usize::MAX
    } else {
        a + b
    }
}

/// `std::str::from_utf8`: succeeds exactly on valid UTF-8, with the decoded text.
#[verifier::external_body]
fn utf8_str(bytes: &[u8]) -> (res: Option<&str>)
    ensures
        res is Some <==> valid_utf8(bytes@),
        res matches Some(s) ==> s@ == decode_utf8(bytes@),
{
    std::str::from_utf8(bytes).ok()
}

/// Reads a big-endian `u16` at `*offset`, advancing it by two on success.
pub fn read_u16(bytes: &[u8], offset: &mut usize) -> (res: Option<u16>)
    ensures
        match u16_at(bytes@, *old(offset) as int) {
            Some(v) => res == Some(v as u16) && *final(offset) == *old(offset) + 2,
            None => res is None && *final(offset) == *old(offset),
        },
{
    let o = *offset;
    if o > bytes.len() || bytes.len() - o < 2 {
        return None;
    }
    let v: u16 = (bytes[o] as u16) * 256 + (bytes[o + 1] as u16);
    *offset = o + 2;
    Some(v)
}

/// Reads a big-endian `u32` at `*offset`, advancing it by four on success.
pub fn read_u32(bytes: &[u8], offset: &mut usize) -> (res: Option<u32>)
    ensures
        match u32_at(bytes@, *old(offset) as int) {
            Some(v) => res == Some(v as u32) && *final(offset) == *old(offset) + 4,
            None => res is None && *final(offset) == *old(offset),
        },
{
    let o = *offset;
    if o > bytes.len() || bytes.len() - o < 4 {
        return None;
    }
    let v: u32 = (bytes[o] as u32) * 16777216 + (bytes[o + 1] as u32) * 65536 + (bytes[o + 2] as u32)
        * 256 + (bytes[o + 3] as u32);
    *offset = o + 4;
    Some(v)
}

/// The UTF-8 entries of a class file's constant pool, by slot.
pub struct ConstantPool {
    pub strings: Vec<String>,
}

impl View for ConstantPool {
    type V = Seq<Seq<char>>;

    open spec fn view(&self) -> Seq<Seq<char>> {
        self.strings@.map_values(|s: String| s@)
    }
}

impl ConstantPool {
    /// Parses the constant pool of a class file; `None` unless the magic number is present and
    /// every pool entry is well formed.
    pub fn parse(bytes: &[u8]) -> (res: Option<ConstantPool>)
        ensures
            match spec_parse_pool(bytes@) {
                Some(strs) => res matches Some(p) && p@ == strs,
                None => res is None,
            },
    {
        if bytes.len() < 10 || bytes[0] != 0xCA || bytes[1] != 0xFE || bytes[2] != 0xBA || bytes[3]
            != 0xBE {
            return None;
        }
        let mut offset: usize = 8;
        let count = match read_u16(bytes, &mut offset) {
            Some(c) => c as usize,
            None => return None,
        };
        let ghost b = bytes@;
        let ghost init = Seq::new(count as nat, |i: int| Seq::<char>::empty());
        let mut strings: Vec<String> = Vec::new();
        for i in 0..count
            invariant
                strings@.len() == i,
                strings@.map_values(|s: String| s@) == Seq::new(i as nat, |j: int| Seq::<char>::empty()),
        {
            let e = String::new();
            let ghost prev = strings@;
            strings.push(e);
            assert forall|j: int| 0 <= j < i + 1 implies #[trigger] strings@[j]@ == Seq::<char>::empty() by {
                if j < i {
                    assert(strings@[j] == prev[j]);
                    assert(prev.map_values(|s: String| s@)[j] == Seq::<char>::empty());
                }
            }
            assert(strings@.map_values(|s: String| s@) =~= Seq::new(
                (i + 1) as nat,
                |j: int| Seq::<char>::empty(),
            ));
        }
        assert(strings@.map_values(|s: String| s@) =~= init);
        let mut index: usize = 1;
        let ghost mut so: int = 10;
        while index < count
            invariant
                b == bytes@,
                b.len() == bytes.len(),
                b.len() >= 10,
                b[0] == 0xCA && b[1] == 0xFE && b[2] == 0xBA && b[3] == 0xBE,
                init == Seq::new(count as nat, |i: int| Seq::<char>::empty()),
                count == b[8] as int * 256 + b[9] as int,
                strings@.len() == count,
                so >= 0,
                offset == clamp(so),
                scan_pool(b, count as int, 1, 10, init) == scan_pool(
                    b,
                    count as int,
                    index as int,
                    so,
                    strings@.map_values(|s: String| s@),
                ),
            decreases count - index,
        {
            proof {
                lemma_u16_clamp(b, so);
            }
            if offset >= bytes.len() {
                assert(so >= b.len());
                assert(scan_pool(b, count as int, index as int, so, strings@.map_values(|s: String| s@)) is None);
                return None;
            }
            let tag = bytes[offset];
            offset = offset + 1;
            proof {
                so = so + 1;
            }
            if tag == 1 {
                let len = match read_u16(bytes, &mut offset) {
                    Some(l) => l as usize,
                    None => {
                        assert(u16_at(b, so) is None);
                        assert(scan_pool(b, count as int, index as int, so - 1, strings@.map_values(|s: String| s@)) is None);
                        return None;
                    },
                };
                proof {
                    so = so + 2;
                }
                if offset > bytes.len() || len > bytes.len() - offset {
                    return None;
                }
                let slice = slice_subrange(bytes, offset, offset + len);
                let text = match utf8_str(slice) {
                    Some(s) => to_owned(s),
                    None => String::new(),
                };
                let ghost before = strings@.map_values(|s: String| s@);
                strings.set(index, text);
                assert(strings@.map_values(|s: String| s@) =~= before.update(
                    index as int,
                    utf8_or_empty(b.subrange(so, so + len)),
                ));
                offset = offset + len;
                proof {
                    so = so + len;
                }
                index = index + 1;
            } else {
                let w: usize = if tag == 7 || tag == 8 || tag == 16 || tag == 19 || tag == 20 {
                    2
                } else if tag == 3 || tag == 4 || tag == 9 || tag == 10 || tag == 11 || tag == 12 || tag == 17
                    || tag == 18 {
                    4
                } else if tag == 5 || tag == 6 {
                    8
                } else if tag == 15 {
                    3
                } else {
                    return None;
                };
                proof {
                    lemma_clamp_add(so, w as int);
                }
                offset = sat_add(offset, w);
                proof {
                    so = so + w;
                }
                if tag == 5 || tag == 6 {
                    index = index + 1;
                }
                if index < count {
                    index = index + 1;
                } else {
                    index = count;
                }
            }
        }
        Some(ConstantPool { strings })
    }

    /// The string in pool slot `index`, if the slot exists.
    pub fn utf8(&self, index: u16) -> (res: Option<&String>)
        ensures
            match pool_get(self@, index as int) {
                Some(s) => res matches Some(r) && r@ == s,
                None => res is None,
            },
    {
        let i = index as usize;
        if i < self.strings.len() {
            Some(&self.strings[i])
        } else {
            None
        }
    }
}

} // verus!

verus! {

proof fn lemma_texts_push(v: Seq<String>, s: String)
    ensures
        texts(v.push(s)) == texts(v).push(s@),
{
    assert(texts(v.push(s)) =~= texts(v).push(s@));
}

/// `skip_attributes`: the offset after an attribute table starting at `offset`.
pub fn skip_attributes(bytes: &[u8], offset: usize) -> (res: Option<usize>)
    ensures
        match spec_skip_attributes(bytes@, offset as int) {
            Some(o) => res matches Some(r) && r as int == o,
            None => res is None,
        },
{
    let mut pos = offset;
    let count = match read_u16(bytes, &mut pos) {
        Some(c) => c as usize,
        None => return None,
    };
    let mut i: usize = 0;
    while i < count
        invariant
            i <= count,
            u16_at(bytes@, offset as int) == Some(count as int),
            skip_attribute_list(bytes@, offset + 2, count as int) == skip_attribute_list(
                bytes@,
                pos as int,
                count - i,
            ),
        decreases count - i,
    {
        let ghost cur = pos as int;
        pos = sat_add(pos, 2);
        let length = match read_u32(bytes, &mut pos) {
            Some(l) => l as usize,
            None => {
                assert(skip_attribute_list(bytes@, cur, count - i) is None);
                return None;
            },
        };
        pos = sat_add(pos, length);
        i = i + 1;
    }
    Some(pos)
}

/// `skip_fields` and `skip_methods` share this shape: a count, then members of six header bytes
/// and an attribute table each.
fn skip_members(bytes: &[u8], offset: usize) -> (res: Option<usize>)
    ensures
        match spec_skip_members(bytes@, offset as int) {
            Some(o) => res matches Some(r) && r as int == o,
            None => res is None,
        },
{
    let mut pos = offset;
    let count = match read_u16(bytes, &mut pos) {
        Some(c) => c as usize,
        None => return None,
    };
    let mut i: usize = 0;
    while i < count
        invariant
            i <= count,
            u16_at(bytes@, offset as int) == Some(count as int),
            skip_member_list(bytes@, offset + 2, count as int) == skip_member_list(
                bytes@,
                pos as int,
                count - i,
            ),
        decreases count - i,
    {
        let ghost cur = pos as int;
        pos = sat_add(pos, 6);
        pos = match skip_attributes(bytes, pos) {
            Some(o) => o,
            None => {
                assert(skip_member_list(bytes@, cur, count - i) is None);
                return None;
            },
        };
        assert(skip_member_list(bytes@, cur, count - i) == skip_member_list(bytes@, pos as int, count - (i + 1)));
        i = i + 1;
    }
    Some(pos)
}

/// `skip_fields`: the offset after the field table starting at `offset`.
pub fn skip_fields(bytes: &[u8], offset: usize) -> (res: Option<usize>)
    ensures
        match spec_skip_members(bytes@, offset as int) {
            Some(o) => res matches Some(r) && r as int == o,
            None => res is None,
        },
{
    skip_members(bytes, offset)
}

/// `skip_methods`: the offset after the method table starting at `offset`.
pub fn skip_methods(bytes: &[u8], offset: usize) -> (res: Option<usize>)
    ensures
        match spec_skip_members(bytes@, offset as int) {
            Some(o) => res matches Some(r) && r as int == o,
            None => res is None,
        },
{
    skip_members(bytes, offset)
}

/// Whether pool slot `index` holds the `@Mixin` descriptor.
fn is_mixin_index(pool: &ConstantPool, index: u16) -> (res: bool)
    ensures
        res == (pool_get(pool@, index as int) == Some(MIXIN_ANNOTATION@)),
{
    match pool.utf8(index) {
        Some(s) => str_eq(s.as_str(), MIXIN_ANNOTATION),
        None => false,
    }
}

/// A `u16` read that yields 0 and leaves the offset unchanged when the bytes are missing.
fn read_u16_or_zero(bytes: &[u8], offset: &mut usize) -> (res: u16)
    ensures
        (*final(offset) as int, res as int) == u16_or_zero(bytes@, *old(offset) as int),
{
    match read_u16(bytes, offset) {
        Some(v) => v,
        None => 0,
    }
}

/// `parse_element_value`: parses one element value at `*offset` (stopping at once when the
/// offset has reached `end`), appending class constants and nested `@Mixin` markers to `values`.
pub fn parse_element_value(
    bytes: &[u8],
    offset: &mut usize,
    end: usize,
    pool: &ConstantPool,
    values: &mut Vec<String>,
)
    ensures
        *final(offset) as int == spec_element(bytes@, *old(offset) as int, end as int, pool@).0,
        texts(final(values)@) == texts(old(values)@) + spec_element(
            bytes@,
            *old(offset) as int,
            end as int,
            pool@,
        ).1,
    decreases room(*old(offset) as int, end as int),
{
    let ghost b = bytes@;
    let ghost o = *offset as int;
    let ghost v0 = texts(values@);
    if *offset >= end {
        assert(texts(values@) =~= v0 + Seq::empty());
        return ;
    }
    let tag: u8 = if *offset < bytes.len() {
        bytes[*offset]
    } else {
        0
    };
    *offset = *offset + 1;
    if tag == 66 || tag == 67 || tag == 68 || tag == 70 || tag == 73 || tag == 74 || tag == 83
        || tag == 90 || tag == 115 {
        *offset = sat_add(*offset, 2);
        assert(texts(values@) =~= v0 + Seq::empty());
    } else if tag == 99 {
        let const_index = read_u16_or_zero(bytes, offset);
        match pool.utf8(const_index) {
            Some(value) => {
                let owned = to_owned(value.as_str());
                proof {
                    lemma_texts_push(values@, owned);
                }
                values.push(owned);
                assert(texts(values@) =~= v0 + seq![value@]);
            },
            None => {
                assert(texts(values@) =~= v0 + Seq::empty());
            },
        }
    } else if tag == 101 {
        *offset = sat_add(*offset, 4);
        assert(texts(values@) =~= v0 + Seq::empty());
    } else if tag == 64 {
        let type_index = read_u16_or_zero(bytes, offset);
        if is_mixin_index(pool, type_index) {
            let marker = to_owned(MIXIN_ANNOTATION);
            proof {
                lemma_texts_push(values@, marker);
            }
            values.push(marker);
        }
        let ghost v1 = texts(values@);
        assert(v1 == v0 + mixin_marker(pool@, type_index as int)) by {
            assert(v1 =~= v0 + mixin_marker(pool@, type_index as int));
        }
        let pairs = read_u16_or_zero(bytes, offset);
        let ghost o3 = *offset as int;
        let mut k: u16 = 0;
        while k < pairs
            invariant
                b == bytes@,
                o == *old(offset) as int,
                o < clamp(end as int),
                o3 > o,
                *offset as int >= o3,
                k <= pairs,
                texts(values@).len() >= v1.len(),
                texts(values@).subrange(0, v1.len() as int) == v1,
                spec_pairs(b, o3, end as int, pool@, pairs as int).0 == spec_pairs(
                    b,
                    *offset as int,
                    end as int,
                    pool@,
                    pairs - k,
                ).0,
                spec_pairs(b, o3, end as int, pool@, pairs as int).1 == texts(values@).subrange(
                    v1.len() as int,
                    texts(values@).len() as int,
                ) + spec_pairs(b, *offset as int, end as int, pool@, pairs - k).1,
            decreases pairs - k,
        {
            let ghost cur = *offset as int;
            let ghost before = texts(values@);
            *offset = sat_add(*offset, 2);
            assert(room(*offset as int, end as int) < room(o, end as int));
            parse_element_value(bytes, offset, end, pool, values);
            proof {
                lemma_element_monotone(b, sadd(cur, 2), end as int, pool@);
                let e = spec_element(b, sadd(cur, 2), end as int, pool@);
                assert(texts(values@) == before + e.1);
                assert(texts(values@).subrange(0, v1.len() as int) =~= before.subrange(0, v1.len() as int));
                assert(texts(values@).subrange(v1.len() as int, texts(values@).len() as int) =~= before.subrange(
                    v1.len() as int,
                    before.len() as int,
                ) + e.1);
            }
            k = k + 1;
        }
        proof {
            assert(texts(values@) =~= v1 + texts(values@).subrange(v1.len() as int, texts(values@).len() as int));
            assert(texts(values@) =~= v0 + (mixin_marker(pool@, type_index as int) + spec_pairs(
                b,
                o3,
                end as int,
                pool@,
                pairs as int,
            ).1));
        }
    } else if tag == 91 {
        let count = read_u16_or_zero(bytes, offset);
        let ghost o2 = *offset as int;
        let mut k: u16 = 0;
        while k < count
            invariant
                b == bytes@,
                o == *old(offset) as int,
                o < clamp(end as int),
                o2 > o,
                *offset as int >= o2,
                k <= count,
                texts(values@).len() >= v0.len(),
                texts(values@).subrange(0, v0.len() as int) == v0,
                spec_elements(b, o2, end as int, pool@, count as int).0 == spec_elements(
                    b,
                    *offset as int,
                    end as int,
                    pool@,
                    count - k,
                ).0,
                spec_elements(b, o2, end as int, pool@, count as int).1 == texts(values@).subrange(
                    v0.len() as int,
                    texts(values@).len() as int,
                ) + spec_elements(b, *offset as int, end as int, pool@, count - k).1,
            decreases count - k,
        {
            let ghost cur = *offset as int;
            let ghost before = texts(values@);
            assert(room(*offset as int, end as int) < room(o, end as int));
            parse_element_value(bytes, offset, end, pool, values);
            proof {
                lemma_element_monotone(b, cur, end as int, pool@);
                let e = spec_element(b, cur, end as int, pool@);
                assert(texts(values@) == before + e.1);
                assert(texts(values@).subrange(0, v0.len() as int) =~= before.subrange(0, v0.len() as int));
                assert(texts(values@).subrange(v0.len() as int, texts(values@).len() as int) =~= before.subrange(
                    v0.len() as int,
                    before.len() as int,
                ) + e.1);
            }
            k = k + 1;
        }
        proof {
            assert(texts(values@) =~= v0 + texts(values@).subrange(v0.len() as int, texts(values@).len() as int));
        }
    } else {
        assert(texts(values@) =~= v0 + Seq::empty());
    }
}

} // verus!

verus! {

/// Parses `num` annotations at `*pos`, appending what they yield to `values`.
fn parse_annotations(
    bytes: &[u8],
    pos: &mut usize,
    end: usize,
    num: u16,
    pool: &ConstantPool,
    values: &mut Vec<String>,
)
    ensures
        *final(pos) as int == spec_annotations(bytes@, *old(pos) as int, end as int, pool@, num as int).0,
        texts(final(values)@) == texts(old(values)@) + spec_annotations(
            bytes@,
            *old(pos) as int,
            end as int,
            pool@,
            num as int,
        ).1,
{
    let ghost b = bytes@;
    let ghost start = *pos as int;
    let ghost v0 = texts(values@);
    let mut a: u16 = 0;
    while a < num
        invariant
            b == bytes@,
            a <= num,
            texts(values@).len() >= v0.len(),
            texts(values@).subrange(0, v0.len() as int) == v0,
            spec_annotations(b, start, end as int, pool@, num as int).0 == spec_annotations(
                b,
                *pos as int,
                end as int,
                pool@,
                num - a,
            ).0,
            spec_annotations(b, start, end as int, pool@, num as int).1 == texts(values@).subrange(
                v0.len() as int,
                texts(values@).len() as int,
            ) + spec_annotations(b, *pos as int, end as int, pool@, num - a).1,
        decreases num - a,
    {
        let ghost cur = *pos as int;
        let ghost before = texts(values@);
        let type_index = read_u16_or_zero(bytes, pos);
        if is_mixin_index(pool, type_index) {
            let marker = to_owned(MIXIN_ANNOTATION);
            proof {
                lemma_texts_push(values@, marker);
            }
            values.push(marker);
        }
        let ghost v1 = texts(values@);
        assert(v1 =~= before + mixin_marker(pool@, type_index as int));
        let pairs = read_u16_or_zero(bytes, pos);
        let ghost o2 = *pos as int;
        let mut k: u16 = 0;
        while k < pairs
            invariant
                b == bytes@,
                k <= pairs,
                texts(values@).len() >= v1.len(),
                texts(values@).subrange(0, v1.len() as int) == v1,
                spec_pairs(b, o2, end as int, pool@, pairs as int).0 == spec_pairs(
                    b,
                    *pos as int,
                    end as int,
                    pool@,
                    pairs - k,
                ).0,
                spec_pairs(b, o2, end as int, pool@, pairs as int).1 == texts(values@).subrange(
                    v1.len() as int,
                    texts(values@).len() as int,
                ) + spec_pairs(b, *pos as int, end as int, pool@, pairs - k).1,
            decreases pairs - k,
        {
            let ghost c2 = *pos as int;
            let ghost bef = texts(values@);
            *pos = sat_add(*pos, 2);
            parse_element_value(bytes, pos, end, pool, values);
            proof {
                lemma_element_monotone(b, sadd(c2, 2), end as int, pool@);
                let e = spec_element(b, sadd(c2, 2), end as int, pool@);
                assert(texts(values@).subrange(0, v1.len() as int) =~= bef.subrange(0, v1.len() as int));
                assert(texts(values@).subrange(v1.len() as int, texts(values@).len() as int) =~= bef.subrange(
                    v1.len() as int,
                    bef.len() as int,
                ) + e.1);
            }
            k = k + 1;
        }
        proof {
            let p = spec_pairs(b, o2, end as int, pool@, pairs as int);
            assert(texts(values@) =~= v1 + texts(values@).subrange(v1.len() as int, texts(values@).len() as int));
            assert(texts(values@).subrange(0, v0.len() as int) =~= before.subrange(0, v0.len() as int));
            assert(texts(values@).subrange(v0.len() as int, texts(values@).len() as int) =~= before.subrange(
                v0.len() as int,
                before.len() as int,
            ) + (mixin_marker(pool@, type_index as int) + p.1));
        }
        a = a + 1;
    }
    proof {
        assert(texts(values@) =~= v0 + texts(values@).subrange(v0.len() as int, texts(values@).len() as int));
    }
}

/// `parse_annotation_values`: the strings yielded by the annotations in a
/// `RuntimeVisibleAnnotations` payload of `length` bytes at `offset`.
pub fn parse_annotation_values(bytes: &[u8], offset: usize, length: usize, pool: &ConstantPool) -> (res:
    Vec<String>)
    ensures
        texts(res@) == spec_annotation_values(bytes@, offset as int, length as int, pool@),
{
    let end = sat_add(offset, length);
    let mut values: Vec<String> = Vec::new();
    let mut pos = offset;
    let num = match read_u16(bytes, &mut pos) {
        Some(n) => n,
        None => {
            assert(texts(values@) =~= Seq::empty());
            return values;
        },
    };
    parse_annotations(bytes, &mut pos, end, num, pool, &mut values);
    assert(texts(values@) =~= Seq::empty() + spec_annotations(
        bytes@,
        offset + 2,
        end as int,
        pool@,
        num as int,
    ).1);
    values
}

impl ConstantPool {
    /// `runtime_visible_class_annotations`: walks past the constant pool, interfaces, fields and
    /// methods to the class attributes, and parses `RuntimeVisibleAnnotations` if present.
    pub fn runtime_visible_class_annotations(&self, bytes: &[u8]) -> (res: Option<Vec<String>>)
        ensures
            match spec_class_annotations(self@, bytes@) {
                Some(vs) => res matches Some(r) && texts(r@) == vs,
                None => res is None,
            },
    {
        let ghost b = bytes@;
        let mut offset: usize = 8;
        let count = match read_u16(bytes, &mut offset) {
            Some(c) => c as usize,
            None => return None,
        };
        let mut index: usize = 1;
        while index < count
            invariant
                b == bytes@,
                u16_at(b, 8) == Some(count as int),
                skip_pool(b, count as int, 1, 10) == skip_pool(b, count as int, index as int, offset as int),
            decreases count - index,
        {
            if offset >= bytes.len() {
                return None;
            }
            let tag = bytes[offset];
            offset = offset + 1;
            if tag == 1 {
                let len = match read_u16(bytes, &mut offset) {
                    Some(l) => l as usize,
                    None => return None,
                };
                offset = sat_add(offset, len);
                index = index + 1;
            } else {
                let w: usize = if tag == 7 || tag == 8 || tag == 16 || tag == 19 || tag == 20 {
                    2
                } else if tag == 3 || tag == 4 || tag == 9 || tag == 10 || tag == 11 || tag == 12 || tag == 17
                    || tag == 18 {
                    4
                } else if tag == 5 || tag == 6 {
                    8
                } else if tag == 15 {
                    3
                } else {
                    return None;
                };
                offset = sat_add(offset, w);
                if tag == 5 || tag == 6 {
                    index = index + 1;
                }
                if index < count {
                    index = index + 1;
                } else {
                    index = count;
                }
            }
        }
        offset = sat_add(offset, 6);
        let interfaces = match read_u16(bytes, &mut offset) {
            Some(n) => n as usize,
            None => return None,
        };
        offset = sat_add(offset, interfaces * 2);
        offset = match skip_fields(bytes, offset) {
            Some(o) => o,
            None => return None,
        };
        offset = match skip_methods(bytes, offset) {
            Some(o) => o,
            None => return None,
        };
        let attributes = match read_u16(bytes, &mut offset) {
            Some(n) => n,
            None => return None,
        };
        let mut k: u16 = 0;
        while k < attributes
            invariant
                b == bytes@,
                k <= attributes,
                spec_class_annotations(self@, b) == spec_attributes(
                    b,
                    offset as int,
                    self@,
                    attributes - k,
                ),
            decreases attributes - k,
        {
            let ghost cur = offset as int;
            let name_index = match read_u16(bytes, &mut offset) {
                Some(v) => v,
                None => return None,
            };
            let length = match read_u32(bytes, &mut offset) {
                Some(l) => l as usize,
                None => return None,
            };
            let name = match self.utf8(name_index) {
                Some(n) => n,
                None => return None,
            };
            if str_eq(name.as_str(), RUNTIME_VISIBLE_ANNOTATIONS) {
                return Some(parse_annotation_values(bytes, offset, length, self));
            }
            offset = sat_add(offset, length);
            k = k + 1;
        }
        None
    }
}

/// `descriptor_to_class_name`: `Lnet/minecraft/Foo;` becomes `net.minecraft.Foo`; other
/// descriptors, and the empty `L;`, have no class name.
pub fn descriptor_to_class_name(descriptor: &str) -> (res: Option<String>)
    ensures
        match spec_descriptor_to_class_name(descriptor@) {
            Some(n) => res matches Some(r) && r@ == n,
            None => res is None,
        },
{
    let d = chars_of(descriptor);
    let n = d.len();
    if n < 2 || d[0] != 'L' || d[n - 1] != ';' {
        return None;
    }
    if n == 2 {
        return None;
    }
    let inner = crate::text::slice_sub(d.as_slice(), 1, n - 1);
    let replaced = slice_replace_char(inner.as_slice(), '/', '.');
    Some(string_of(replaced.as_slice()))
}

} // verus!

verus! {

/// `collect_mixin_targets_from_class`: adds to `out` the classes that a mixin class file's
/// `@Mixin` annotation targets (nothing when the file does not parse).
pub fn collect_mixin_targets_from_class(bytes: &[u8], out: &mut Vec<String>)
    ensures
        texts(final(out)@) == insert_all(texts(old(out)@), spec_class_targets(bytes@)),
{
    let ghost start = texts(out@);
    let pool = match ConstantPool::parse(bytes) {
        Some(p) => p,
        None => return ,
    };
    let values = match pool.runtime_visible_class_annotations(bytes) {
        Some(v) => v,
        None => return ,
    };
    let ghost vs = texts(values@);
    for i in 0..values.len()
        invariant
            vs == texts(values@),
            texts(out@) == insert_all(start, targets_of_values(vs.take(i as int))),
    {
        assert(vs.take(i + 1).drop_last() =~= vs.take(i as int));
        assert(vs.take(i + 1).last() == vs[i as int]);
        if !str_eq(values[i].as_str(), MIXIN_ANNOTATION) {
            match descriptor_to_class_name(values[i].as_str()) {
                Some(class_name) => {
                    insert_string(out, class_name);
                    let ghost t = targets_of_values(vs.take(i as int));
                    assert(t.push(class_name@).drop_last() =~= t);
                },
                None => {},
            }
        }
    }
    assert(vs.take(vs.len() as int) =~= vs);
}

} // verus!
