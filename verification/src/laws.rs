use vstd::prelude::*;

use crate::ClassFileView;
use crate::ParserError;
use crate::components::{
    friendly_name, kind_of, spec_decode_attribute, spec_decode_entry, spec_decode_pool,
    spec_retrieve, utf8_payload, ConstantPoolItemKind, ConstantPoolItemView,
};
use crate::primitives::{be_u16, be_u32};

verus! {

/// Both class references of a class file point, one-based, at `Class`
/// entries of its constant pool.
pub open spec fn valid_class_references(class_file: ClassFileView) -> bool {
    &&& 1 <= class_file.this_class
    &&& class_file.this_class - 1 < class_file.constant_pool.len()
    &&& class_file.constant_pool[class_file.this_class - 1] is Class
    &&& 1 <= class_file.super_class
    &&& class_file.super_class - 1 < class_file.constant_pool.len()
    &&& class_file.constant_pool[class_file.super_class - 1] is Class
}

/// On every class file whose class references are valid, `this_class` and
/// `super_class` resolve through the typed lookup to `Class` entries
/// without error.
pub proof fn lemma_class_references_resolve(class_file: ClassFileView)
    requires
        valid_class_references(class_file),
    ensures
        spec_retrieve(
            class_file.constant_pool,
            class_file.this_class as int,
            ConstantPoolItemKind::Class,
        ) is Ok,
        spec_retrieve(
            class_file.constant_pool,
            class_file.super_class as int,
            ConstantPoolItemKind::Class,
        ) is Ok,
{
}

/// Index resolution is the one-based shift: declared index zero is always
/// out of bounds, and every other declared index reads exactly the slot at
/// the declared index minus one, whatever kind is asked for.
pub proof fn lemma_resolution_shift(
    pool: Seq<ConstantPoolItemView>,
    index: int,
    want: ConstantPoolItemKind,
)
    ensures
        index == 0 ==> spec_retrieve(pool, index, want) == Err::<
            ConstantPoolItemView,
            ParserError,
        >(ParserError::ConstantPoolIndexOutOfBounds(0)),
        index >= 1 && index - 1 >= pool.len() ==> spec_retrieve(pool, index, want) == Err::<
            ConstantPoolItemView,
            ParserError,
        >(ParserError::ConstantPoolIndexOutOfBounds((index - 1) as usize)),
        index >= 1 && index - 1 < pool.len() && kind_of(pool[index - 1]) == want ==> spec_retrieve(
            pool,
            index,
            want,
        ) == Ok::<ConstantPoolItemView, ParserError>(pool[index - 1]),
        index >= 1 && index - 1 < pool.len() && kind_of(pool[index - 1]) != want ==> spec_retrieve(
            pool,
            index,
            want,
        ) == Err::<ConstantPoolItemView, ParserError>(
            ParserError::UnexpectedConstantPoolItem(friendly_name(kind_of(pool[index - 1]))),
        ),
{
}

/// Resolving an index that points at a `Utf8` entry as if it were a
/// `Class` entry fails with `UnexpectedConstantPoolItem` naming the kind
/// found; it never hands back a wrong-kinded payload.
pub proof fn lemma_utf8_is_not_a_class(pool: Seq<ConstantPoolItemView>, index: int)
    requires
        1 <= index,
        index - 1 < pool.len(),
        pool[index - 1] is Utf8,
    ensures
        spec_retrieve(pool, index, ConstantPoolItemKind::Class) matches Err(e) && e matches
            ParserError::UnexpectedConstantPoolItem(name) && name@ == "Utf8"@,
{
}

/// No typed lookup ever resolves to the placeholder slot: on an `Empty`
/// slot every kind a caller can ask for fails with
/// `UnexpectedConstantPoolItem`.
pub proof fn lemma_placeholder_never_resolves(
    pool: Seq<ConstantPoolItemView>,
    index: int,
    want: ConstantPoolItemKind,
)
    requires
        1 <= index,
        index - 1 < pool.len(),
        pool[index - 1] is Empty,
        want != ConstantPoolItemKind::Empty,
    ensures
        spec_retrieve(pool, index, want) matches Err(e) && e matches
            ParserError::UnexpectedConstantPoolItem(name) && name@ == "Empty"@,
{
}

/// In every decoded constant pool, each `Long` or `Double` entry at slot
/// `i` is immediately followed by the `Empty` placeholder at slot `i + 1`.
pub proof fn lemma_pool_double_slot(s: Seq<u8>, pos: int, slots: int)
    ensures
        spec_decode_pool(s, pos, slots) matches Ok(decoded) ==> forall|i: int|
            0 <= i < decoded.0.len() && (#[trigger] decoded.0[i] is Long
                || decoded.0[i] is Double) ==> i + 1 < decoded.0.len() && decoded.0[i + 1] is Empty,
    decreases slots,
{
    if slots <= 0 {
    } else {
        match spec_decode_entry(s, pos) {
            Err(..) => {},
            Ok(head) => {
                let entry = head.0;
                let next = head.1;
                if entry is Long || entry is Double {
                    let remaining = if slots >= 2 {
                        slots - 2
                    } else {
                        0
                    };
                    lemma_pool_double_slot(s, next, remaining);
                    match spec_decode_pool(s, next, remaining) {
                        Err(..) => {},
                        Ok(rest) => {
                            let whole = seq![entry, ConstantPoolItemView::Empty] + rest.0;
                            assert forall|i: int|
                                0 <= i < whole.len() && (#[trigger] whole[i] is Long || whole[i]
                                    is Double) implies i + 1 < whole.len() && whole[i + 1]
                                is Empty by {
                                if i >= 2 {
                                    assert(whole[i] == rest.0[i - 2]);
                                    assert(rest.0[i - 2 + 1] is Empty);
                                }
                            }
                        },
                    }
                } else {
                    lemma_pool_double_slot(s, next, slots - 1);
                    match spec_decode_pool(s, next, slots - 1) {
                        Err(..) => {},
                        Ok(rest) => {
                            let whole = seq![entry] + rest.0;
                            assert forall|i: int|
                                0 <= i < whole.len() && (#[trigger] whole[i] is Long || whole[i]
                                    is Double) implies i + 1 < whole.len() && whole[i + 1]
                                is Empty by {
                                if i >= 1 {
                                    assert(whole[i] == rest.0[i - 1]);
                                    assert(rest.0[i - 1 + 1] is Empty);
                                }
                            }
                        },
                    }
                }
            },
        }
    }
}

/// Decoding an attribute always advances the position past exactly the
/// payload the header declared: six header bytes plus the declared length,
/// whether or not the attribute's name is recognized.  The one exception
/// is the structurally decoded "Code" body, whose extent its own fields
/// declare; every attribute under any other name, known to nobody or not,
/// is consumed as exactly its declared length.
pub proof fn lemma_attribute_advances_declared_length(
    s: Seq<u8>,
    pos: int,
    pool: Seq<ConstantPoolItemView>,
)
    ensures
        spec_decode_attribute(s, pos, pool) matches Ok(decoded) ==> (decoded.0 is Unknown
            ==> decoded.1 == pos + 6 + be_u32(s, pos + 2)),
        spec_decode_attribute(s, pos, pool) matches Ok(decoded) ==> (spec_retrieve(
            pool,
            be_u16(s, pos) as int,
            ConstantPoolItemKind::Utf8,
        ) matches Ok(entry) ==> (decoded.0 is Unknown <==> utf8_payload(entry).value
            != "Code"@)),
{
}

} // verus!
