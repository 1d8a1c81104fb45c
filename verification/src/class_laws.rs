//! What reading a class file's annotations can give: element values advance through the bytes,
//! and every collected value is the `@Mixin` descriptor or a string of the constant pool.
use vstd::prelude::*;

use crate::classfile::{
    clamp, is_const_tag, pool_get as get_slot, scan_pool, spec_attributes, spec_class_annotations, spec_class_targets,
    spec_descriptor_to_class_name, spec_parse_pool, targets_of_values, u32_at, RUNTIME_VISIBLE_ANNOTATIONS, lemma_elements_monotone, lemma_element_monotone, lemma_pairs_monotone, mixin_marker,
    pool_get, sadd, spec_annotation_values, spec_annotations, spec_element, spec_elements, spec_pairs, room,
    u16_at, u16_or_zero, MIXIN_ANNOTATION,
};

verus! {

/// Every value is the `@Mixin` descriptor or a string of the pool.
pub open spec fn from_pool(vs: Seq<Seq<char>>, pool: Seq<Seq<char>>) -> bool {
    forall|i: int| 0 <= i < vs.len() ==> #[trigger] vs[i] == MIXIN_ANNOTATION@ || pool.contains(vs[i])
}

proof fn lemma_concat_from_pool(v: Seq<Seq<char>>, w: Seq<Seq<char>>, pool: Seq<Seq<char>>)
    requires
        from_pool(v, pool),
        from_pool(w, pool),
    ensures
        from_pool(v + w, pool),
{
    assert forall|i: int| 0 <= i < (v + w).len() implies #[trigger] (v + w)[i] == MIXIN_ANNOTATION@
        || pool.contains((v + w)[i]) by {
        if i < v.len() {
            assert((v + w)[i] == v[i]);
        } else {
            assert((v + w)[i] == w[i - v.len()]);
        }
    }
}

proof fn lemma_marker_from_pool(pool: Seq<Seq<char>>, index: int)
    ensures
        from_pool(mixin_marker(pool, index), pool),
{
}

proof fn lemma_get_from_pool(pool: Seq<Seq<char>>, index: int)
    ensures
        match pool_get(pool, index) {
            Some(v) => from_pool(seq![v], pool),
            None => true,
        },
{
    if 0 <= index < pool.len() {
        assert(seq![pool[index]][0] == pool[index]);
    }
}

proof fn lemma_element_from_pool(b: Seq<u8>, o: int, end: int, pool: Seq<Seq<char>>)
    ensures
        from_pool(spec_element(b, o, end, pool).1, pool),
    decreases room(o, end), 1nat, 0int,
{
    if o < clamp(end) {
        let tag: u8 = if 0 <= o < b.len() {
            b[o]
        } else {
            0
        };
        let o1 = o + 1;
        if is_const_tag(tag) {
        } else if tag == 99 {
            let (o2, idx) = u16_or_zero(b, o1);
            lemma_get_from_pool(pool, idx);
        } else if tag == 101 {
        } else if tag == 64 {
            let (o2, type_index) = u16_or_zero(b, o1);
            let (o3, pairs) = u16_or_zero(b, o2);
            lemma_pairs_from_pool(b, o3, end, pool, pairs);
            lemma_marker_from_pool(pool, type_index);
            lemma_concat_from_pool(mixin_marker(pool, type_index), spec_pairs(b, o3, end, pool, pairs).1, pool);
        } else if tag == 91 {
            let (o2, count) = u16_or_zero(b, o1);
            lemma_elements_from_pool(b, o2, end, pool, count);
        }
    }
}

proof fn lemma_pairs_from_pool(b: Seq<u8>, o: int, end: int, pool: Seq<Seq<char>>, n: int)
    ensures
        from_pool(spec_pairs(b, o, end, pool, n).1, pool),
    decreases room(o, end), 2nat, n,
{
    if n > 0 {
        lemma_element_monotone(b, sadd(o, 2), end, pool);
        lemma_element_from_pool(b, sadd(o, 2), end, pool);
        let (o1, v) = spec_element(b, sadd(o, 2), end, pool);
        let next = if o1 >= o {
            o1
        } else {
            o
        };
        lemma_pairs_from_pool(b, next, end, pool, n - 1);
        lemma_concat_from_pool(v, spec_pairs(b, next, end, pool, n - 1).1, pool);
    }
}

proof fn lemma_elements_from_pool(b: Seq<u8>, o: int, end: int, pool: Seq<Seq<char>>, n: int)
    ensures
        from_pool(spec_elements(b, o, end, pool, n).1, pool),
    decreases room(o, end), 2nat, n,
{
    if n > 0 {
        lemma_element_monotone(b, o, end, pool);
        lemma_element_from_pool(b, o, end, pool);
        let (o1, v) = spec_element(b, o, end, pool);
        lemma_elements_from_pool(b, o1, end, pool, n - 1);
        lemma_concat_from_pool(v, spec_elements(b, o1, end, pool, n - 1).1, pool);
    }
}

proof fn lemma_annotations_from_pool(b: Seq<u8>, o: int, end: int, pool: Seq<Seq<char>>, n: int)
    ensures
        from_pool(spec_annotations(b, o, end, pool, n).1, pool),
    decreases n,
{
    if n > 0 {
        let (o1, type_index) = u16_or_zero(b, o);
        let (o2, pairs) = u16_or_zero(b, o1);
        let (o3, vs) = spec_pairs(b, o2, end, pool, pairs);
        lemma_pairs_from_pool(b, o2, end, pool, pairs);
        lemma_annotations_from_pool(b, o3, end, pool, n - 1);
        lemma_marker_from_pool(pool, type_index);
        lemma_concat_from_pool(mixin_marker(pool, type_index), vs, pool);
        lemma_concat_from_pool(
            mixin_marker(pool, type_index) + vs,
            spec_annotations(b, o3, end, pool, n - 1).1,
            pool,
        );
    }
}

/// The values read from a `RuntimeVisibleAnnotations` payload are each the `@Mixin`
/// descriptor (one per `@Mixin` annotation, nested ones included) or a string of the constant
/// pool (a class constant); there are none when the payload's count cannot be read.
pub proof fn law_annotation_values(b: Seq<u8>, o: int, length: int, pool: Seq<Seq<char>>)
    ensures
        from_pool(spec_annotation_values(b, o, length, pool), pool),
        u16_at(b, o) is None ==> spec_annotation_values(b, o, length, pool) == Seq::<Seq<char>>::empty(),
{
    match u16_at(b, o) {
        None => {},
        Some(n) => lemma_annotations_from_pool(b, o + 2, sadd(o, length), pool, n),
    }
}

/// Reading one element value stays put and reads nothing at or past the annotation's end,
/// and otherwise moves forward (values are only ever appended, as `parse_element_value`
/// states).
pub proof fn law_element_offset(b: Seq<u8>, o: int, end: int, pool: Seq<Seq<char>>)
    ensures
        o >= clamp(end) ==> spec_element(b, o, end, pool) == (o, Seq::<Seq<char>>::empty()),
        o < clamp(end) ==> spec_element(b, o, end, pool).0 > o,
{
    if o < clamp(end) {
        let tag: u8 = if 0 <= o < b.len() {
            b[o]
        } else {
            0
        };
        let o1 = o + 1;
        if tag == 64 {
            let (o2, type_index) = u16_or_zero(b, o1);
            let (o3, pairs) = u16_or_zero(b, o2);
            lemma_pairs_monotone(b, o3, end, pool, pairs);
        } else if tag == 91 {
            let (o2, count) = u16_or_zero(b, o1);
            lemma_elements_monotone(b, o2, end, pool, count);
        }
    }
}

/// Each value one element value yields is the `@Mixin` descriptor or a string of the pool:
/// what `parse_element_value` appends.
pub proof fn law_element_values(b: Seq<u8>, o: int, end: int, pool: Seq<Seq<char>>)
    ensures
        from_pool(spec_element(b, o, end, pool).1, pool),
{
    lemma_element_from_pool(b, o, end, pool);
}

proof fn lemma_scan_keeps(b: Seq<u8>, count: int, index: int, offset: int, strs: Seq<Seq<char>>)
    requires
        index >= 1,
        strs.len() == count,
    ensures
        scan_pool(b, count, index, offset, strs) matches Some((o, r)) ==> r.len() == strs.len() && forall|j: int|
            0 <= j < index ==> #[trigger] r[j] == strs[j],
    decreases count - index,
{
    if index < count && 0 <= offset < b.len() {
        let tag = b[offset];
        let o = offset + 1;
        if tag == 1 {
            match u16_at(b, o) {
                None => {},
                Some(len) => {
                    let start = o + 2;
                    if start + len <= b.len() {
                        let s2 = strs.update(index, crate::classfile::utf8_or_empty(b.subrange(start, start + len)));
                        lemma_scan_keeps(b, count, index + 1, start + len, s2);
                        assert forall|j: int| 0 <= j < index implies s2[j] == strs[j] by {}
                    }
                },
            }
        } else {
            match crate::classfile::tag_width(tag) {
                None => {},
                Some(w) => {
                    let next = index + if tag == 5 || tag == 6 {
                        2int
                    } else {
                        1int
                    };
                    lemma_scan_keeps(b, count, if next > count { count } else { next }, o + w, strs);
                },
            }
        }
    }
}

/// A constant pool is read only from a class file: at least ten bytes, starting with the magic
/// number `CA FE BA BE`; it has as many slots as the count at bytes 8 and 9 says, and slot 0
/// (which no entry fills) is empty.
pub proof fn law_pool(b: Seq<u8>)
    ensures
        spec_parse_pool(b) matches Some(strs) ==> {
            &&& b.len() >= 10
            &&& b[0] == 0xCA && b[1] == 0xFE && b[2] == 0xBA && b[3] == 0xBE
            &&& strs.len() == b[8] as int * 256 + b[9] as int
            &&& strs.len() > 0 ==> strs[0] == Seq::<char>::empty()
        },
{
    if !(b.len() < 10 || b[0] != 0xCA || b[1] != 0xFE || b[2] != 0xBA || b[3] != 0xBE) {
        let count = b[8] as int * 256 + b[9] as int;
        let init = Seq::new(count as nat, |i: int| Seq::<char>::empty());
        lemma_scan_keeps(b, count, 1, 10, init);
    }
}

/// The attribute at `a` is named `RuntimeVisibleAnnotations` and its payload parses to `vs`.
pub open spec fn rva_payload(b: Seq<u8>, a: int, pool: Seq<Seq<char>>, vs: Seq<Seq<char>>) -> bool {
    match (u16_at(b, a), u32_at(b, a + 2)) {
        (Some(name_index), Some(length)) => get_slot(pool, name_index) == Some(RUNTIME_VISIBLE_ANNOTATIONS@) && vs
            == spec_annotation_values(b, a + 6, length, pool),
        _ => false,
    }
}

/// When the walk over an attribute table finds annotation values, they are those parsed from
/// the payload of an attribute named `RuntimeVisibleAnnotations`; so a table with no readable
/// attribute of that name gives none.
pub proof fn law_attribute_walk(b: Seq<u8>, o: int, pool: Seq<Seq<char>>, n: int)
    ensures
        spec_attributes(b, o, pool, n) is Some ==> exists|a: int|
            #[trigger] rva_payload(b, a, pool, spec_attributes(b, o, pool, n)->0),
    decreases n,
{
    let r = spec_attributes(b, o, pool, n);
    if n > 0 && u16_at(b, o) is Some && u32_at(b, o + 2) is Some && get_slot(pool, u16_at(b, o)->0) is Some {
        let length = u32_at(b, o + 2)->0;
        if get_slot(pool, u16_at(b, o)->0)->0 != RUNTIME_VISIBLE_ANNOTATIONS@ {
            law_attribute_walk(b, sadd(o + 6, length), pool, n - 1);
            assert(r == spec_attributes(b, sadd(o + 6, length), pool, n - 1));
        } else {
            let vs = spec_annotation_values(b, o + 6, length, pool);
            assert(r == Some(vs));
            assert(r->0 == vs);
            assert(rva_payload(b, o, pool, r->0));
        }
    } else {
        assert(r is None);
    }
}

proof fn lemma_targets_of_values(values: Seq<Seq<char>>, i: int)
    requires
        0 <= i < targets_of_values(values).len(),
    ensures
        exists|k: int|
            0 <= k < values.len() && values[k] != MIXIN_ANNOTATION@ && #[trigger] spec_descriptor_to_class_name(values[k])
                == Some(targets_of_values(values)[i]),
    decreases values.len(),
{
    let rest = targets_of_values(values.drop_last());
    let v = values.last();
    if i < rest.len() {
        lemma_targets_of_values(values.drop_last(), i);
        let k = choose|k: int|
            0 <= k < values.drop_last().len() && values.drop_last()[k] != MIXIN_ANNOTATION@
                && #[trigger] spec_descriptor_to_class_name(values.drop_last()[k]) == Some(rest[i]);
        assert(values[k] == values.drop_last()[k]);
    } else {
        assert(spec_descriptor_to_class_name(values[values.len() - 1]) == Some(targets_of_values(values)[i]));
    }
}

/// Every class a class file's `@Mixin` annotation is found to target is the class name of one
/// of its class annotation values other than the `@Mixin` descriptor itself.
pub proof fn law_class_targets(b: Seq<u8>, i: int)
    requires
        0 <= i < spec_class_targets(b).len(),
    ensures
        exists|pool: Seq<Seq<char>>, values: Seq<Seq<char>>, k: int|
            #![trigger spec_class_annotations(pool, b), values[k]]
            spec_parse_pool(b) == Some(pool) && spec_class_annotations(pool, b) == Some(values) && 0 <= k
                < values.len() && values[k] != MIXIN_ANNOTATION@ && spec_descriptor_to_class_name(values[k]) == Some(
                spec_class_targets(b)[i],
            ),
{
    let pool = spec_parse_pool(b)->0;
    let values = spec_class_annotations(pool, b)->0;
    lemma_targets_of_values(values, i);
    let k = choose|k: int|
        0 <= k < values.len() && values[k] != MIXIN_ANNOTATION@ && #[trigger] spec_descriptor_to_class_name(values[k])
            == Some(targets_of_values(values)[i]);
    assert(spec_class_annotations(pool, b) == Some(values));
}

} // verus!
