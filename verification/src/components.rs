use vstd::prelude::*;

use crate::ParserError;
use crate::ParserResult;
use crate::primitives::{be_u16, be_u32, PrimitiveIterator, U1, U2, U4};

use std::rc::Rc;

use vstd::utf8::{decode_utf8, valid_utf8};

verus! {

/// The payload of a `Class` constant-pool entry: a symbolic reference to a
/// class, naming its textual name by pool index.
#[derive(Debug)]
pub struct ClassInfo {
    pub tag: U1,
    pub name_index: U2,
}

/// The shared payload of the `Field`, `Method` and `InterfaceMethod`
/// constant-pool entries: a member reference by class and name-and-type.
#[derive(Debug)]
pub struct FieldOrMethodOrInterfaceMethodInfo {
    pub tag: U1,
    pub class_index: U2,
    pub name_and_type_index: U2,
}

/// The payload of an `Integer` or `Float` constant-pool entry: four raw
/// big-endian bytes.
#[derive(Debug)]
pub struct IntegerOrFloatInfo {
    pub tag: U1,
    pub bytes: U4,
}

/// The payload of a `Long` or `Double` constant-pool entry: eight raw bytes
/// split into two big-endian words.
#[derive(Debug)]
pub struct LongOrDoubleInfo {
    pub tag: U1,
    pub high_bytes: U4,
    pub low_bytes: U4,
}

/// The payload of a `String` constant-pool entry: a reference to the `Utf8`
/// entry holding the text.
#[derive(Debug)]
pub struct StringInfo {
    pub tag: U1,
    pub string_index: U2,
}

/// The payload of a `NameAndType` constant-pool entry.
#[derive(Debug)]
pub struct NameAndTypeInfo {
    pub tag: U1,
    pub name_index: U2,
    pub descriptor_index: U2,
}

/// The payload of a `Utf8` constant-pool entry: decoded text plus the
/// declared byte length it was read from.
#[derive(Debug, Eq, Hash, PartialEq)]
pub struct Utf8Info {
    pub tag: U1,
    pub length: U2,
    pub value: String,
}

/// The mathematical value of a `Utf8Info`: the same fields with the text as
/// a sequence of characters.
pub struct Utf8View {
    pub tag: u8,
    pub length: u16,
    pub value: Seq<char>,
}

impl View for Utf8Info {
    type V = Utf8View;

    open spec fn view(&self) -> Utf8View {
        Utf8View { tag: self.tag, length: self.length, value: self.value@ }
    }
}

impl Utf8Info {
    /// The decoded text.
    pub fn as_str(&self) -> (r: &str)
        ensures
            r@ == self.value@,
    {
        self.value.as_str()
    }
}

/// One slot of the constant pool.  Payloads referenced from elsewhere are
/// held behind shared reference-counted handles so that many indices can
/// alias one decoded entry without copying it.
#[derive(Debug)]
pub enum ConstantPoolItem {
    /// The synthetic placeholder slot that follows every `Long` or `Double`
    /// entry; it never appears on the wire and no index may resolve to it.
    Empty,
    Class(Rc<ClassInfo>),
    Field(Rc<FieldOrMethodOrInterfaceMethodInfo>),
    Method(Rc<FieldOrMethodOrInterfaceMethodInfo>),
    InterfaceMethod(Rc<FieldOrMethodOrInterfaceMethodInfo>),
    String(Rc<StringInfo>),
    Integer(Rc<IntegerOrFloatInfo>),
    Float(Rc<IntegerOrFloatInfo>),
    Long(Rc<LongOrDoubleInfo>),
    Double(Rc<LongOrDoubleInfo>),
    NameAndType(Rc<NameAndTypeInfo>),
    Utf8(Rc<Utf8Info>),
    MethodHandle { tag: U1, reference_kind: U1, reference_index: U2 },
    MethodType { tag: U1, descriptor_index: U2 },
    InvokeDynamic { tag: U1, bootstrap_method_attr_index: U2, name_and_type_index: U2 },
}

/// The mathematical value of one constant-pool slot.
pub enum ConstantPoolItemView {
    Empty,
    Class(ClassInfo),
    Field(FieldOrMethodOrInterfaceMethodInfo),
    Method(FieldOrMethodOrInterfaceMethodInfo),
    InterfaceMethod(FieldOrMethodOrInterfaceMethodInfo),
    String(StringInfo),
    Integer(IntegerOrFloatInfo),
    Float(IntegerOrFloatInfo),
    Long(LongOrDoubleInfo),
    Double(LongOrDoubleInfo),
    NameAndType(NameAndTypeInfo),
    Utf8(Utf8View),
    MethodHandle { tag: u8, reference_kind: u8, reference_index: u16 },
    MethodType { tag: u8, descriptor_index: u16 },
    InvokeDynamic { tag: u8, bootstrap_method_attr_index: u16, name_and_type_index: u16 },
}

impl View for ConstantPoolItem {
    type V = ConstantPoolItemView;

    open spec fn view(&self) -> ConstantPoolItemView {
        match self {
            ConstantPoolItem::Empty => ConstantPoolItemView::Empty,
            ConstantPoolItem::Class(info) => ConstantPoolItemView::Class(**info),
            ConstantPoolItem::Field(info) => ConstantPoolItemView::Field(**info),
            ConstantPoolItem::Method(info) => ConstantPoolItemView::Method(**info),
            ConstantPoolItem::InterfaceMethod(info) => ConstantPoolItemView::InterfaceMethod(
                **info,
            ),
            ConstantPoolItem::String(info) => ConstantPoolItemView::String(**info),
            ConstantPoolItem::Integer(info) => ConstantPoolItemView::Integer(**info),
            ConstantPoolItem::Float(info) => ConstantPoolItemView::Float(**info),
            ConstantPoolItem::Long(info) => ConstantPoolItemView::Long(**info),
            ConstantPoolItem::Double(info) => ConstantPoolItemView::Double(**info),
            ConstantPoolItem::NameAndType(info) => ConstantPoolItemView::NameAndType(**info),
            ConstantPoolItem::Utf8(info) => ConstantPoolItemView::Utf8(info.view()),
            ConstantPoolItem::MethodHandle { tag, reference_kind, reference_index } => {
                ConstantPoolItemView::MethodHandle {
                    tag: *tag,
                    reference_kind: *reference_kind,
                    reference_index: *reference_index,
                }
            },
            ConstantPoolItem::MethodType { tag, descriptor_index } => {
                ConstantPoolItemView::MethodType { tag: *tag, descriptor_index: *descriptor_index }
            },
            ConstantPoolItem::InvokeDynamic { tag, bootstrap_method_attr_index, name_and_type_index } => {
                ConstantPoolItemView::InvokeDynamic {
                    tag: *tag,
                    bootstrap_method_attr_index: *bootstrap_method_attr_index,
                    name_and_type_index: *name_and_type_index,
                }
            },
        }
    }
}

/// The mathematical value of a whole constant pool.
pub open spec fn pool_view(s: Seq<ConstantPoolItem>) -> Seq<ConstantPoolItemView> {
    Seq::new(s.len(), |i: int| s[i]@)
}

/// The kind of a constant-pool slot: which variant it holds, payload aside.
/// A typed lookup names the kind it expects and fails on any other.
pub enum ConstantPoolItemKind {
    Empty,
    Class,
    Field,
    Method,
    InterfaceMethod,
    String,
    Integer,
    Float,
    Long,
    Double,
    NameAndType,
    Utf8,
    MethodHandle,
    MethodType,
    InvokeDynamic,
}

/// The kind of one decoded slot.
pub open spec fn kind_of(entry: ConstantPoolItemView) -> ConstantPoolItemKind {
    match entry {
        ConstantPoolItemView::Empty => ConstantPoolItemKind::Empty,
        ConstantPoolItemView::Class(..) => ConstantPoolItemKind::Class,
        ConstantPoolItemView::Field(..) => ConstantPoolItemKind::Field,
        ConstantPoolItemView::Method(..) => ConstantPoolItemKind::Method,
        ConstantPoolItemView::InterfaceMethod(..) => ConstantPoolItemKind::InterfaceMethod,
        ConstantPoolItemView::String(..) => ConstantPoolItemKind::String,
        ConstantPoolItemView::Integer(..) => ConstantPoolItemKind::Integer,
        ConstantPoolItemView::Float(..) => ConstantPoolItemKind::Float,
        ConstantPoolItemView::Long(..) => ConstantPoolItemKind::Long,
        ConstantPoolItemView::Double(..) => ConstantPoolItemKind::Double,
        ConstantPoolItemView::NameAndType(..) => ConstantPoolItemKind::NameAndType,
        ConstantPoolItemView::Utf8(..) => ConstantPoolItemKind::Utf8,
        ConstantPoolItemView::MethodHandle { .. } => ConstantPoolItemKind::MethodHandle,
        ConstantPoolItemView::MethodType { .. } => ConstantPoolItemKind::MethodType,
        ConstantPoolItemView::InvokeDynamic { .. } => ConstantPoolItemKind::InvokeDynamic,
    }
}

/// The name a slot kind is reported under when a typed lookup finds it in
/// place of the kind it expected.
pub open spec fn friendly_name(kind: ConstantPoolItemKind) -> &'static str {
    match kind {
        ConstantPoolItemKind::Empty => "Empty",
        ConstantPoolItemKind::Utf8 => "Utf8",
        ConstantPoolItemKind::Class => "Class",
        ConstantPoolItemKind::String => "String",
        ConstantPoolItemKind::Field => "Field",
        ConstantPoolItemKind::Method => "Method",
        ConstantPoolItemKind::InterfaceMethod => "InterfaceMethod",
        ConstantPoolItemKind::Integer => "Integer",
        ConstantPoolItemKind::Float => "Float",
        ConstantPoolItemKind::NameAndType => "NameAndType",
        _ => "Not yet implemented",
    }
}

/// The typed constant-pool lookup that all structural decoding goes
/// through.  Wire indices are one-based: slot `i` of the pool answers for
/// declared index `i + 1`, and declared index zero is always out of bounds.
/// A lookup either returns the entry of the expected kind or says exactly
/// how it failed; it never hands back a wrong-kinded payload.
pub open spec fn spec_retrieve(
    pool: Seq<ConstantPoolItemView>,
    index: int,
    want: ConstantPoolItemKind,
) -> Result<ConstantPoolItemView, ParserError> {
    if index == 0 {
        Err(ParserError::ConstantPoolIndexOutOfBounds(0))
    } else {
        let actual = index - 1;
        if actual >= pool.len() {
            Err(ParserError::ConstantPoolIndexOutOfBounds(actual as usize))
        } else if kind_of(pool[actual]) == want {
            Ok(pool[actual])
        } else {
            Err(ParserError::UnexpectedConstantPoolItem(friendly_name(kind_of(pool[actual]))))
        }
    }
}

/// Relies on `String::from_utf8`: it succeeds exactly on well-formed UTF-8
/// input and returns the text those bytes encode.
#[verifier::external_body]
fn utf8_to_string(bytes: Vec<u8>) -> (r: Option<String>)
    ensures
        r is Some <==> valid_utf8(bytes@),
        r matches Some(v) ==> v@ == decode_utf8(bytes@),
{
    String::from_utf8(bytes).ok()
}

/// One constant-pool slot as the wire holds it at `pos`: a tag byte, then a
/// payload whose width the tag fixes; one variant per wire tag.  The
/// result pairs the decoded slot with the position just past it.
pub open spec fn spec_decode_entry(s: Seq<u8>, pos: int) -> Result<
    (ConstantPoolItemView, int),
    ParserError,
> {
    if pos + 1 > s.len() {
        Err(ParserError::UnexpectedEndOfInput)
    } else {
        let tag = s[pos];
        if tag == 1 {
            if pos + 3 > s.len() {
                Err(ParserError::UnexpectedEndOfInput)
            } else {
                let length = be_u16(s, pos + 1);
                if pos + 3 + length > s.len() {
                    Err(ParserError::UnexpectedEndOfInput)
                } else {
                    let bytes = s.subrange(pos + 3, pos + 3 + length);
                    if valid_utf8(bytes) {
                        Ok(
                            (
                                ConstantPoolItemView::Utf8(
                                    Utf8View { tag, length, value: decode_utf8(bytes) },
                                ),
                                pos + 3 + length,
                            ),
                        )
                    } else {
                        Err(ParserError::InvalidUtf8)
                    }
                }
            }
        } else if tag == 3 || tag == 4 {
            if pos + 5 > s.len() {
                Err(ParserError::UnexpectedEndOfInput)
            } else {
                let info = IntegerOrFloatInfo { tag, bytes: be_u32(s, pos + 1) };
                let entry = if tag == 3 {
                    ConstantPoolItemView::Integer(info)
                } else {
                    ConstantPoolItemView::Float(info)
                };
                Ok((entry, pos + 5))
            }
        } else if tag == 5 || tag == 6 {
            if pos + 9 > s.len() {
                Err(ParserError::UnexpectedEndOfInput)
            } else {
                let info = LongOrDoubleInfo {
                    tag,
                    high_bytes: be_u32(s, pos + 1),
                    low_bytes: be_u32(s, pos + 5),
                };
                let entry = if tag == 5 {
                    ConstantPoolItemView::Long(info)
                } else {
                    ConstantPoolItemView::Double(info)
                };
                Ok((entry, pos + 9))
            }
        } else if tag == 7 {
            if pos + 3 > s.len() {
                Err(ParserError::UnexpectedEndOfInput)
            } else {
                Ok(
                    (
                        ConstantPoolItemView::Class(
                            ClassInfo { tag, name_index: be_u16(s, pos + 1) },
                        ),
                        pos + 3,
                    ),
                )
            }
        } else if tag == 8 {
            if pos + 3 > s.len() {
                Err(ParserError::UnexpectedEndOfInput)
            } else {
                Ok(
                    (
                        ConstantPoolItemView::String(
                            StringInfo { tag, string_index: be_u16(s, pos + 1) },
                        ),
                        pos + 3,
                    ),
                )
            }
        } else if tag == 9 || tag == 10 || tag == 11 {
            if pos + 5 > s.len() {
                Err(ParserError::UnexpectedEndOfInput)
            } else {
                let info = FieldOrMethodOrInterfaceMethodInfo {
                    tag,
                    class_index: be_u16(s, pos + 1),
                    name_and_type_index: be_u16(s, pos + 3),
                };
                let entry = if tag == 9 {
                    ConstantPoolItemView::Field(info)
                } else if tag == 10 {
                    ConstantPoolItemView::Method(info)
                } else {
                    ConstantPoolItemView::InterfaceMethod(info)
                };
                Ok((entry, pos + 5))
            }
        } else if tag == 12 {
            if pos + 5 > s.len() {
                Err(ParserError::UnexpectedEndOfInput)
            } else {
                Ok(
                    (
                        ConstantPoolItemView::NameAndType(
                            NameAndTypeInfo {
                                tag,
                                name_index: be_u16(s, pos + 1),
                                descriptor_index: be_u16(s, pos + 3),
                            },
                        ),
                        pos + 5,
                    ),
                )
            }
        } else if tag == 15 {
            if pos + 4 > s.len() {
                Err(ParserError::UnexpectedEndOfInput)
            } else {
                Ok(
                    (
                        ConstantPoolItemView::MethodHandle {
                            tag,
                            reference_kind: s[pos + 1],
                            reference_index: be_u16(s, pos + 2),
                        },
                        pos + 4,
                    ),
                )
            }
        } else if tag == 16 {
            if pos + 3 > s.len() {
                Err(ParserError::UnexpectedEndOfInput)
            } else {
                Ok(
                    (
                        ConstantPoolItemView::MethodType {
                            tag,
                            descriptor_index: be_u16(s, pos + 1),
                        },
                        pos + 3,
                    ),
                )
            }
        } else if tag == 18 {
            if pos + 5 > s.len() {
                Err(ParserError::UnexpectedEndOfInput)
            } else {
                Ok(
                    (
                        ConstantPoolItemView::InvokeDynamic {
                            tag,
                            bootstrap_method_attr_index: be_u16(s, pos + 1),
                            name_and_type_index: be_u16(s, pos + 3),
                        },
                        pos + 5,
                    ),
                )
            }
        } else {
            Err(ParserError::UnknownConstantPoolTag(tag))
        }
    }
}

impl ConstantPoolItem {

    /// Decode one constant-pool slot from the cursor: a tag byte, then the
    /// payload that tag calls for.  A tag outside the known set is a hard
    /// failure that consumes exactly the one tag byte: this format has no
    /// entry that is safe to skip unread.
    pub fn from<T: PrimitiveIterator>(iter: &mut T) -> (r: ParserResult<ConstantPoolItem>)
        requires
            0 <= old(iter).pos() <= old(iter).stream().len(),
        ensures
            final(iter).stream() == old(iter).stream(),
            old(iter).pos() <= final(iter).pos() <= old(iter).stream().len(),
            match spec_decode_entry(old(iter).stream(), old(iter).pos()) {
                Ok(decoded) => r matches Ok(item) && item@ == decoded.0 && final(iter).pos()
                    == decoded.1,
                Err(e) => r matches Err(pe) && pe == e,
            },
            spec_decode_entry(old(iter).stream(), old(iter).pos()) matches Err(
                ParserError::UnknownConstantPoolTag(..),
            ) ==> final(iter).pos() == old(iter).pos() + 1,
            spec_decode_entry(old(iter).stream(), old(iter).pos()) matches Err(
                ParserError::UnexpectedEndOfInput,
            ) ==> final(iter).pos() == old(iter).stream().len(),
            spec_decode_entry(old(iter).stream(), old(iter).pos()) matches Err(
                ParserError::InvalidUtf8,
            ) ==> final(iter).pos() == old(iter).pos() + 3 + be_u16(
                old(iter).stream(),
                old(iter).pos() + 1,
            ),
    {
        let ghost s = old(iter).stream();
        let ghost p0 = old(iter).pos();
        let tag = match iter.next_u1() {
            Ok(t) => t,
            Err(e) => {
                return Err(e);
            },
        };
        match tag {
            1 => {
                let length = match iter.next_u2() {
                    Ok(v) => v,
                    Err(e) => {
                        return Err(e);
                    },
                };
                let mut byte_vec: Vec<u8> = Vec::new();
                for i in 0..length
                    invariant
                        0 <= p0,
                        s == old(iter).stream(),
                        p0 == old(iter).pos(),
                        iter.stream() == s,
                        iter.pos() == p0 + 3 + i,
                        p0 + 3 + i <= s.len(),
                        p0 + 3 <= s.len(),
                        length == be_u16(s, p0 + 1),
                        tag == s[p0] && tag == 1,
                        byte_vec@ == s.subrange(p0 + 3, p0 + 3 + i),
                {
                    let b = match iter.next_u1() {
                        Ok(b) => b,
                        Err(e) => {
                            return Err(e);
                        },
                    };
                    byte_vec.push(b);
                    proof {
                        assert(byte_vec@ =~= s.subrange(p0 + 3, p0 + 3 + i + 1));
                    }
                }
                let value = match utf8_to_string(byte_vec) {
                    Some(v) => v,
                    None => {
                        return Err(ParserError::InvalidUtf8);
                    },
                };
                Ok(ConstantPoolItem::Utf8(Rc::new(Utf8Info { tag, length, value })))
            },
            3 => {
                let word = match iter.next_u4() {
                    Ok(v) => v,
                    Err(e) => {
                        return Err(e);
                    },
                };
                Ok(ConstantPoolItem::Integer(Rc::new(IntegerOrFloatInfo { tag, bytes: word })))
            },
            4 => {
                let word = match iter.next_u4() {
                    Ok(v) => v,
                    Err(e) => {
                        return Err(e);
                    },
                };
                Ok(ConstantPoolItem::Float(Rc::new(IntegerOrFloatInfo { tag, bytes: word })))
            },
            5 => {
                let high_bytes = match iter.next_u4() {
                    Ok(v) => v,
                    Err(e) => {
                        return Err(e);
                    },
                };
                let low_bytes = match iter.next_u4() {
                    Ok(v) => v,
                    Err(e) => {
                        return Err(e);
                    },
                };
                Ok(ConstantPoolItem::Long(Rc::new(LongOrDoubleInfo { tag, high_bytes, low_bytes })))
            },
            6 => {
                let high_bytes = match iter.next_u4() {
                    Ok(v) => v,
                    Err(e) => {
                        return Err(e);
                    },
                };
                let low_bytes = match iter.next_u4() {
                    Ok(v) => v,
                    Err(e) => {
                        return Err(e);
                    },
                };
                Ok(
                    ConstantPoolItem::Double(
                        Rc::new(LongOrDoubleInfo { tag, high_bytes, low_bytes }),
                    ),
                )
            },
            7 => {
                let name_index = match iter.next_u2() {
                    Ok(v) => v,
                    Err(e) => {
                        return Err(e);
                    },
                };
                Ok(ConstantPoolItem::Class(Rc::new(ClassInfo { tag, name_index })))
            },
            8 => {
                let string_index = match iter.next_u2() {
                    Ok(v) => v,
                    Err(e) => {
                        return Err(e);
                    },
                };
                Ok(ConstantPoolItem::String(Rc::new(StringInfo { tag, string_index })))
            },
            9 => {
                let class_index = match iter.next_u2() {
                    Ok(v) => v,
                    Err(e) => {
                        return Err(e);
                    },
                };
                let name_and_type_index = match iter.next_u2() {
                    Ok(v) => v,
                    Err(e) => {
                        return Err(e);
                    },
                };
                Ok(
                    ConstantPoolItem::Field(
                        Rc::new(
                            FieldOrMethodOrInterfaceMethodInfo {
                                tag,
                                class_index,
                                name_and_type_index,
                            },
                        ),
                    ),
                )
            },
            10 => {
                let class_index = match iter.next_u2() {
                    Ok(v) => v,
                    Err(e) => {
                        return Err(e);
                    },
                };
                let name_and_type_index = match iter.next_u2() {
                    Ok(v) => v,
                    Err(e) => {
                        return Err(e);
                    },
                };
                Ok(
                    ConstantPoolItem::Method(
                        Rc::new(
                            FieldOrMethodOrInterfaceMethodInfo {
                                tag,
                                class_index,
                                name_and_type_index,
                            },
                        ),
                    ),
                )
            },
            11 => {
                let class_index = match iter.next_u2() {
                    Ok(v) => v,
                    Err(e) => {
                        return Err(e);
                    },
                };
                let name_and_type_index = match iter.next_u2() {
                    Ok(v) => v,
                    Err(e) => {
                        return Err(e);
                    },
                };
                Ok(
                    ConstantPoolItem::InterfaceMethod(
                        Rc::new(
                            FieldOrMethodOrInterfaceMethodInfo {
                                tag,
                                class_index,
                                name_and_type_index,
                            },
                        ),
                    ),
                )
            },
            12 => {
                let name_index = match iter.next_u2() {
                    Ok(v) => v,
                    Err(e) => {
                        return Err(e);
                    },
                };
                let descriptor_index = match iter.next_u2() {
                    Ok(v) => v,
                    Err(e) => {
                        return Err(e);
                    },
                };
                Ok(
                    ConstantPoolItem::NameAndType(
                        Rc::new(NameAndTypeInfo { tag, name_index, descriptor_index }),
                    ),
                )
            },
            15 => {
                let reference_kind = match iter.next_u1() {
                    Ok(v) => v,
                    Err(e) => {
                        return Err(e);
                    },
                };
                let reference_index = match iter.next_u2() {
                    Ok(v) => v,
                    Err(e) => {
                        return Err(e);
                    },
                };
                Ok(ConstantPoolItem::MethodHandle { tag, reference_kind, reference_index })
            },
            16 => {
                let descriptor_index = match iter.next_u2() {
                    Ok(v) => v,
                    Err(e) => {
                        return Err(e);
                    },
                };
                Ok(ConstantPoolItem::MethodType { tag, descriptor_index })
            },
            18 => {
                let bootstrap_method_attr_index = match iter.next_u2() {
                    Ok(v) => v,
                    Err(e) => {
                        return Err(e);
                    },
                };
                let name_and_type_index = match iter.next_u2() {
                    Ok(v) => v,
                    Err(e) => {
                        return Err(e);
                    },
                };
                Ok(
                    ConstantPoolItem::InvokeDynamic {
                        tag,
                        bootstrap_method_attr_index,
                        name_and_type_index,
                    },
                )
            },
            _ => Err(ParserError::UnknownConstantPoolTag(tag)),
        }
    }

    /// The name this slot's kind is reported under in errors.
    pub fn to_friendly_name(&self) -> (r: &'static str)
        ensures
            r == friendly_name(kind_of(self@)),
    {
        match self {
            ConstantPoolItem::Empty => "Empty",
            ConstantPoolItem::Utf8(..) => "Utf8",
            ConstantPoolItem::Class(..) => "Class",
            ConstantPoolItem::String(..) => "String",
            ConstantPoolItem::Field(..) => "Field",
            ConstantPoolItem::Method(..) => "Method",
            ConstantPoolItem::InterfaceMethod(..) => "InterfaceMethod",
            ConstantPoolItem::Integer(..) => "Integer",
            ConstantPoolItem::Float(..) => "Float",
            ConstantPoolItem::NameAndType(..) => "NameAndType",
            _ => "Not yet implemented",
        }
    }

    /// Fetch the slot a one-based wire index names, untyped.
    pub fn retrieve_item(index: usize, constant_pool: &Vec<ConstantPoolItem>) -> (r: ParserResult<
        &ConstantPoolItem,
    >)
        ensures
            match r {
                Ok(item) => 1 <= index && index - 1 < constant_pool@.len() && item == &constant_pool@[index
                    - 1],
                Err(e) => (index == 0 ==> e == ParserError::ConstantPoolIndexOutOfBounds(0)) && (
                index >= 1 ==> index - 1 >= constant_pool@.len() && e
                    == ParserError::ConstantPoolIndexOutOfBounds((index - 1) as usize)),
            },
    {
        if index == 0 {
            return Err(ParserError::ConstantPoolIndexOutOfBounds(0));
        }
        let actual_index = Self::shift_index(index);
        if actual_index < constant_pool.len() {
            Ok(&constant_pool[actual_index])
        } else {
            Err(ParserError::ConstantPoolIndexOutOfBounds(actual_index))
        }
    }

    /// Resolve a one-based wire index that must name a `Class` entry.
    pub fn retrieve_class_info(index: U2, constant_pool: &Vec<ConstantPoolItem>) -> (r: ParserResult<
        Rc<ClassInfo>,
    >)
        ensures
            match r {
                Ok(info) => spec_retrieve(
                    pool_view(constant_pool@),
                    index as int,
                    ConstantPoolItemKind::Class,
                ) == Ok::<ConstantPoolItemView, ParserError>(ConstantPoolItemView::Class(*info)),
                Err(e) => spec_retrieve(
                    pool_view(constant_pool@),
                    index as int,
                    ConstantPoolItemKind::Class,
                ) == Err::<ConstantPoolItemView, ParserError>(e),
            },
    {
        if index == 0 {
            return Err(ParserError::ConstantPoolIndexOutOfBounds(0));
        }
        let actual_index = Self::shift_index(index as usize);
        if actual_index < constant_pool.len() {
            match &constant_pool[actual_index] {
                ConstantPoolItem::Class(val) => Ok(val.clone()),
                item => Err(ParserError::UnexpectedConstantPoolItem(item.to_friendly_name())),
            }
        } else {
            Err(ParserError::ConstantPoolIndexOutOfBounds(actual_index))
        }
    }

    /// Resolve a one-based wire index that must name a `Utf8` entry.
    pub fn retrieve_utf8_info(index: U2, constant_pool: &Vec<ConstantPoolItem>) -> (r: ParserResult<
        Rc<Utf8Info>,
    >)
        ensures
            match r {
                Ok(info) => spec_retrieve(
                    pool_view(constant_pool@),
                    index as int,
                    ConstantPoolItemKind::Utf8,
                ) == Ok::<ConstantPoolItemView, ParserError>(ConstantPoolItemView::Utf8(info@)),
                Err(e) => spec_retrieve(
                    pool_view(constant_pool@),
                    index as int,
                    ConstantPoolItemKind::Utf8,
                ) == Err::<ConstantPoolItemView, ParserError>(e),
            },
    {
        if index == 0 {
            return Err(ParserError::ConstantPoolIndexOutOfBounds(0));
        }
        let actual_index = Self::shift_index(index as usize);
        if actual_index < constant_pool.len() {
            match &constant_pool[actual_index] {
                ConstantPoolItem::Utf8(val) => Ok(val.clone()),
                item => Err(ParserError::UnexpectedConstantPoolItem(item.to_friendly_name())),
            }
        } else {
            Err(ParserError::ConstantPoolIndexOutOfBounds(actual_index))
        }
    }

    /// Resolve a one-based wire index that must name a `Field` entry.
    pub fn retrieve_field_info(index: U2, constant_pool: &Vec<ConstantPoolItem>) -> (r: ParserResult<
        Rc<FieldOrMethodOrInterfaceMethodInfo>,
    >)
        ensures
            match r {
                Ok(info) => spec_retrieve(
                    pool_view(constant_pool@),
                    index as int,
                    ConstantPoolItemKind::Field,
                ) == Ok::<ConstantPoolItemView, ParserError>(ConstantPoolItemView::Field(*info)),
                Err(e) => spec_retrieve(
                    pool_view(constant_pool@),
                    index as int,
                    ConstantPoolItemKind::Field,
                ) == Err::<ConstantPoolItemView, ParserError>(e),
            },
    {
        if index == 0 {
            return Err(ParserError::ConstantPoolIndexOutOfBounds(0));
        }
        let actual_index = Self::shift_index(index as usize);
        if actual_index < constant_pool.len() {
            match &constant_pool[actual_index] {
                ConstantPoolItem::Field(val) => Ok(val.clone()),
                item => Err(ParserError::UnexpectedConstantPoolItem(item.to_friendly_name())),
            }
        } else {
            Err(ParserError::ConstantPoolIndexOutOfBounds(actual_index))
        }
    }

    /// Resolve a one-based wire index that must name a `Method` entry.
    pub fn retrieve_method_info(index: U2, constant_pool: &Vec<ConstantPoolItem>) -> (r: ParserResult<
        Rc<FieldOrMethodOrInterfaceMethodInfo>,
    >)
        ensures
            match r {
                Ok(info) => spec_retrieve(
                    pool_view(constant_pool@),
                    index as int,
                    ConstantPoolItemKind::Method,
                ) == Ok::<ConstantPoolItemView, ParserError>(ConstantPoolItemView::Method(*info)),
                Err(e) => spec_retrieve(
                    pool_view(constant_pool@),
                    index as int,
                    ConstantPoolItemKind::Method,
                ) == Err::<ConstantPoolItemView, ParserError>(e),
            },
    {
        if index == 0 {
            return Err(ParserError::ConstantPoolIndexOutOfBounds(0));
        }
        let actual_index = Self::shift_index(index as usize);
        if actual_index < constant_pool.len() {
            match &constant_pool[actual_index] {
                ConstantPoolItem::Method(val) => Ok(val.clone()),
                item => Err(ParserError::UnexpectedConstantPoolItem(item.to_friendly_name())),
            }
        } else {
            Err(ParserError::ConstantPoolIndexOutOfBounds(actual_index))
        }
    }

    /// Resolve a one-based wire index that must name a `InterfaceMethod` entry.
    pub fn retrieve_interface_method_info(index: U2, constant_pool: &Vec<ConstantPoolItem>) -> (r: ParserResult<
        Rc<FieldOrMethodOrInterfaceMethodInfo>,
    >)
        ensures
            match r {
                Ok(info) => spec_retrieve(
                    pool_view(constant_pool@),
                    index as int,
                    ConstantPoolItemKind::InterfaceMethod,
                ) == Ok::<ConstantPoolItemView, ParserError>(ConstantPoolItemView::InterfaceMethod(*info)),
                Err(e) => spec_retrieve(
                    pool_view(constant_pool@),
                    index as int,
                    ConstantPoolItemKind::InterfaceMethod,
                ) == Err::<ConstantPoolItemView, ParserError>(e),
            },
    {
        if index == 0 {
            return Err(ParserError::ConstantPoolIndexOutOfBounds(0));
        }
        let actual_index = Self::shift_index(index as usize);
        if actual_index < constant_pool.len() {
            match &constant_pool[actual_index] {
                ConstantPoolItem::InterfaceMethod(val) => Ok(val.clone()),
                item => Err(ParserError::UnexpectedConstantPoolItem(item.to_friendly_name())),
            }
        } else {
            Err(ParserError::ConstantPoolIndexOutOfBounds(actual_index))
        }
    }

    /// Resolve a one-based wire index that must name a `Integer` entry.
    pub fn retrieve_integer_info(index: U2, constant_pool: &Vec<ConstantPoolItem>) -> (r: ParserResult<
        Rc<IntegerOrFloatInfo>,
    >)
        ensures
            match r {
                Ok(info) => spec_retrieve(
                    pool_view(constant_pool@),
                    index as int,
                    ConstantPoolItemKind::Integer,
                ) == Ok::<ConstantPoolItemView, ParserError>(ConstantPoolItemView::Integer(*info)),
                Err(e) => spec_retrieve(
                    pool_view(constant_pool@),
                    index as int,
                    ConstantPoolItemKind::Integer,
                ) == Err::<ConstantPoolItemView, ParserError>(e),
            },
    {
        if index == 0 {
            return Err(ParserError::ConstantPoolIndexOutOfBounds(0));
        }
        let actual_index = Self::shift_index(index as usize);
        if actual_index < constant_pool.len() {
            match &constant_pool[actual_index] {
                ConstantPoolItem::Integer(val) => Ok(val.clone()),
                item => Err(ParserError::UnexpectedConstantPoolItem(item.to_friendly_name())),
            }
        } else {
            Err(ParserError::ConstantPoolIndexOutOfBounds(actual_index))
        }
    }

    /// Resolve a one-based wire index that must name a `Float` entry.
    pub fn retrieve_float_info(index: U2, constant_pool: &Vec<ConstantPoolItem>) -> (r: ParserResult<
        Rc<IntegerOrFloatInfo>,
    >)
        ensures
            match r {
                Ok(info) => spec_retrieve(
                    pool_view(constant_pool@),
                    index as int,
                    ConstantPoolItemKind::Float,
                ) == Ok::<ConstantPoolItemView, ParserError>(ConstantPoolItemView::Float(*info)),
                Err(e) => spec_retrieve(
                    pool_view(constant_pool@),
                    index as int,
                    ConstantPoolItemKind::Float,
                ) == Err::<ConstantPoolItemView, ParserError>(e),
            },
    {
        if index == 0 {
            return Err(ParserError::ConstantPoolIndexOutOfBounds(0));
        }
        let actual_index = Self::shift_index(index as usize);
        if actual_index < constant_pool.len() {
            match &constant_pool[actual_index] {
                ConstantPoolItem::Float(val) => Ok(val.clone()),
                item => Err(ParserError::UnexpectedConstantPoolItem(item.to_friendly_name())),
            }
        } else {
            Err(ParserError::ConstantPoolIndexOutOfBounds(actual_index))
        }
    }

    /// Resolve a one-based wire index that must name a `Long` entry.
    pub fn retrieve_long_info(index: U2, constant_pool: &Vec<ConstantPoolItem>) -> (r: ParserResult<
        Rc<LongOrDoubleInfo>,
    >)
        ensures
            match r {
                Ok(info) => spec_retrieve(
                    pool_view(constant_pool@),
                    index as int,
                    ConstantPoolItemKind::Long,
                ) == Ok::<ConstantPoolItemView, ParserError>(ConstantPoolItemView::Long(*info)),
                Err(e) => spec_retrieve(
                    pool_view(constant_pool@),
                    index as int,
                    ConstantPoolItemKind::Long,
                ) == Err::<ConstantPoolItemView, ParserError>(e),
            },
    {
        if index == 0 {
            return Err(ParserError::ConstantPoolIndexOutOfBounds(0));
        }
        let actual_index = Self::shift_index(index as usize);
        if actual_index < constant_pool.len() {
            match &constant_pool[actual_index] {
                ConstantPoolItem::Long(val) => Ok(val.clone()),
                item => Err(ParserError::UnexpectedConstantPoolItem(item.to_friendly_name())),
            }
        } else {
            Err(ParserError::ConstantPoolIndexOutOfBounds(actual_index))
        }
    }

    /// Resolve a one-based wire index that must name a `Double` entry.
    pub fn retrieve_double_info(index: U2, constant_pool: &Vec<ConstantPoolItem>) -> (r: ParserResult<
        Rc<LongOrDoubleInfo>,
    >)
        ensures
            match r {
                Ok(info) => spec_retrieve(
                    pool_view(constant_pool@),
                    index as int,
                    ConstantPoolItemKind::Double,
                ) == Ok::<ConstantPoolItemView, ParserError>(ConstantPoolItemView::Double(*info)),
                Err(e) => spec_retrieve(
                    pool_view(constant_pool@),
                    index as int,
                    ConstantPoolItemKind::Double,
                ) == Err::<ConstantPoolItemView, ParserError>(e),
            },
    {
        if index == 0 {
            return Err(ParserError::ConstantPoolIndexOutOfBounds(0));
        }
        let actual_index = Self::shift_index(index as usize);
        if actual_index < constant_pool.len() {
            match &constant_pool[actual_index] {
                ConstantPoolItem::Double(val) => Ok(val.clone()),
                item => Err(ParserError::UnexpectedConstantPoolItem(item.to_friendly_name())),
            }
        } else {
            Err(ParserError::ConstantPoolIndexOutOfBounds(actual_index))
        }
    }

    /// Resolve a one-based wire index that must name a `String` entry.
    pub fn retrieve_string_info(index: U2, constant_pool: &Vec<ConstantPoolItem>) -> (r: ParserResult<
        Rc<StringInfo>,
    >)
        ensures
            match r {
                Ok(info) => spec_retrieve(
                    pool_view(constant_pool@),
                    index as int,
                    ConstantPoolItemKind::String,
                ) == Ok::<ConstantPoolItemView, ParserError>(ConstantPoolItemView::String(*info)),
                Err(e) => spec_retrieve(
                    pool_view(constant_pool@),
                    index as int,
                    ConstantPoolItemKind::String,
                ) == Err::<ConstantPoolItemView, ParserError>(e),
            },
    {
        if index == 0 {
            return Err(ParserError::ConstantPoolIndexOutOfBounds(0));
        }
        let actual_index = Self::shift_index(index as usize);
        if actual_index < constant_pool.len() {
            match &constant_pool[actual_index] {
                ConstantPoolItem::String(val) => Ok(val.clone()),
                item => Err(ParserError::UnexpectedConstantPoolItem(item.to_friendly_name())),
            }
        } else {
            Err(ParserError::ConstantPoolIndexOutOfBounds(actual_index))
        }
    }

    /// Resolve a one-based wire index that must name a `NameAndType` entry.
    pub fn retrieve_name_and_type_info(index: U2, constant_pool: &Vec<ConstantPoolItem>) -> (r: ParserResult<
        Rc<NameAndTypeInfo>,
    >)
        ensures
            match r {
                Ok(info) => spec_retrieve(
                    pool_view(constant_pool@),
                    index as int,
                    ConstantPoolItemKind::NameAndType,
                ) == Ok::<ConstantPoolItemView, ParserError>(ConstantPoolItemView::NameAndType(*info)),
                Err(e) => spec_retrieve(
                    pool_view(constant_pool@),
                    index as int,
                    ConstantPoolItemKind::NameAndType,
                ) == Err::<ConstantPoolItemView, ParserError>(e),
            },
    {
        if index == 0 {
            return Err(ParserError::ConstantPoolIndexOutOfBounds(0));
        }
        let actual_index = Self::shift_index(index as usize);
        if actual_index < constant_pool.len() {
            match &constant_pool[actual_index] {
                ConstantPoolItem::NameAndType(val) => Ok(val.clone()),
                item => Err(ParserError::UnexpectedConstantPoolItem(item.to_friendly_name())),
            }
        } else {
            Err(ParserError::ConstantPoolIndexOutOfBounds(actual_index))
        }
    }
    /// Wire indices into the constant pool start from one.
    fn shift_index(unshifted_index: usize) -> (r: usize)
        requires
            unshifted_index >= 1,
        ensures
            r == unshifted_index - 1,
    {
        unshifted_index - 1
    }
}

/// A table entry of a code body's exception handlers.  A `catch_type` of
/// zero means catch-all; a nonzero one names a `Class` entry, checked by
/// consumers rather than by the decoder.
#[derive(Debug)]
pub struct ExceptionHandler {
    pub start_pc: U2,
    pub end_pc: U2,
    pub handler_pc: U2,
    pub catch_type: U2,
}

/// The decoded body of a `Code` attribute: the raw instruction bytes (their
/// meaning is out of scope here), the exception-handler table, and the
/// attribute's own nested attributes.
#[derive(Debug)]
pub struct CodeAttribute {
    pub max_stack: U2,
    pub max_locals: U2,
    pub code_length: U4,
    pub code: Vec<U1>,
    pub exception_table_length: U2,
    pub exception_table: Vec<ExceptionHandler>,
    pub attributes_count: U2,
    pub attributes: Vec<Attribute>,
}

/// A named, length-prefixed sub-structure attached to a class, field,
/// method or code body.  One kind is decoded (`Code`); every other kind is
/// kept as an opaque blob under its resolved name, so that unknown
/// attribute kinds never break decoding.
#[derive(Debug)]
pub enum Attribute {
    Code(Rc<CodeAttribute>),
    Unknown { attribute_name: Rc<Utf8Info>, info: Vec<U1> },
}

/// The mathematical value of a decoded `Code` attribute.
pub struct CodeAttributeView {
    pub max_stack: u16,
    pub max_locals: u16,
    pub code_length: u32,
    pub code: Seq<u8>,
    pub exception_table_length: u16,
    pub exception_table: Seq<ExceptionHandler>,
    pub attributes_count: u16,
    pub attributes: Seq<AttributeView>,
}

/// The mathematical value of a decoded attribute.
pub enum AttributeView {
    Code(CodeAttributeView),
    Unknown { attribute_name: Utf8View, info: Seq<u8> },
}

/// The mathematical value of one attribute.
pub open spec fn attr_view(a: Attribute) -> AttributeView
    decreases a, 1int,
{
    match a {
        Attribute::Code(code) => AttributeView::Code(code_attr_view(*code)),
        Attribute::Unknown { attribute_name, info } => AttributeView::Unknown {
            attribute_name: attribute_name@,
            info: info@,
        },
    }
}

/// The mathematical value of a decoded code body.
pub open spec fn code_attr_view(c: CodeAttribute) -> CodeAttributeView
    decreases c, 2int,
{
    CodeAttributeView {
        max_stack: c.max_stack,
        max_locals: c.max_locals,
        code_length: c.code_length,
        code: c.code@,
        exception_table_length: c.exception_table_length,
        exception_table: c.exception_table@,
        attributes_count: c.attributes_count,
        attributes: attrs_view(c.attributes@),
    }
}

/// The mathematical values of a sequence of attributes.
pub open spec fn attrs_view(s: Seq<Attribute>) -> Seq<AttributeView>
    decreases s, 0int,
{
    if s.len() == 0 {
        Seq::empty()
    } else {
        seq![attr_view(s[0])] + attrs_view(s.drop_first())
    }
}

/// The mathematical values of a sequence of shared attribute handles.
pub open spec fn rc_attrs_view(s: Seq<Rc<Attribute>>) -> Seq<AttributeView>
    decreases s,
{
    if s.len() == 0 {
        Seq::empty()
    } else {
        seq![attr_view(*s[0])] + rc_attrs_view(s.drop_first())
    }
}

/// The `Utf8` payload of an entry known to be of that kind.
pub open spec fn utf8_payload(entry: ConstantPoolItemView) -> Utf8View
    recommends
        entry is Utf8,
{
    match entry {
        ConstantPoolItemView::Utf8(info) => info,
        _ => arbitrary(),
    }
}

/// One exception-handler record as the wire holds it at `pos`: four
/// big-endian two-byte fields.
pub open spec fn spec_handler(s: Seq<u8>, pos: int) -> ExceptionHandler
    recommends
        0 <= pos,
        pos + 8 <= s.len(),
{
    ExceptionHandler {
        start_pc: be_u16(s, pos),
        end_pc: be_u16(s, pos + 2),
        handler_pc: be_u16(s, pos + 4),
        catch_type: be_u16(s, pos + 6),
    }
}

/// One attribute as the wire holds it at `pos`: a two-byte name index that
/// must resolve to a `Utf8` entry, a four-byte length, then the body.  A
/// body named "Code" is decoded structurally; any other body is exactly
/// `length` raw bytes, consumed whether or not the name is recognized.
pub open spec fn spec_decode_attribute(
    s: Seq<u8>,
    pos: int,
    pool: Seq<ConstantPoolItemView>,
) -> Result<(AttributeView, int), ParserError>
    decreases s.len() - pos, 0int, 0int,
{
    if pos + 2 > s.len() {
        Err(ParserError::UnexpectedEndOfInput)
    } else {
        let name_index = be_u16(s, pos);
        match spec_retrieve(pool, name_index as int, ConstantPoolItemKind::Utf8) {
            Err(e) => Err(e),
            Ok(entry) => {
                let name = utf8_payload(entry);
                if pos + 6 > s.len() {
                    Err(ParserError::UnexpectedEndOfInput)
                } else {
                    let length = be_u32(s, pos + 2);
                    if name.value == "Code"@ {
                        match spec_decode_code(s, pos + 6, pool) {
                            Err(e) => Err(e),
                            Ok(decoded) => Ok((AttributeView::Code(decoded.0), decoded.1)),
                        }
                    } else {
                        if pos + 6 + length > s.len() {
                            Err(ParserError::UnexpectedEndOfInput)
                        } else {
                            Ok(
                                (
                                    AttributeView::Unknown {
                                        attribute_name: name,
                                        info: s.subrange(pos + 6, pos + 6 + length),
                                    },
                                    pos + 6 + length,
                                ),
                            )
                        }
                    }
                }
            },
        }
    }
}

/// A `Code` attribute body as the wire holds it at `pos`: max-stack and
/// max-locals, the instruction bytes under a four-byte length, the
/// exception-handler table, then nested attributes.
pub open spec fn spec_decode_code(
    s: Seq<u8>,
    pos: int,
    pool: Seq<ConstantPoolItemView>,
) -> Result<(CodeAttributeView, int), ParserError>
    decreases s.len() - pos, 1int, 0int,
{
    if pos + 8 > s.len() {
        Err(ParserError::UnexpectedEndOfInput)
    } else {
        let max_stack = be_u16(s, pos);
        let max_locals = be_u16(s, pos + 2);
        let code_length = be_u32(s, pos + 4);
        if pos + 8 + code_length > s.len() {
            Err(ParserError::UnexpectedEndOfInput)
        } else {
            let code = s.subrange(pos + 8, pos + 8 + code_length);
            let table_pos = pos + 8 + code_length;
            if table_pos + 2 > s.len() {
                Err(ParserError::UnexpectedEndOfInput)
            } else {
                let exception_table_length = be_u16(s, table_pos);
                if table_pos + 2 + 8 * exception_table_length > s.len() {
                    Err(ParserError::UnexpectedEndOfInput)
                } else {
                    let exception_table = Seq::new(
                        exception_table_length as nat,
                        |i: int| spec_handler(s, table_pos + 2 + 8 * i),
                    );
                    let count_pos = table_pos + 2 + 8 * exception_table_length;
                    if count_pos + 2 > s.len() {
                        Err(ParserError::UnexpectedEndOfInput)
                    } else {
                        let attributes_count = be_u16(s, count_pos);
                        match spec_decode_attributes(
                            s,
                            count_pos + 2,
                            pool,
                            attributes_count as int,
                        ) {
                            Err(e) => Err(e),
                            Ok(decoded) => Ok(
                                (
                                    CodeAttributeView {
                                        max_stack,
                                        max_locals,
                                        code_length,
                                        code,
                                        exception_table_length,
                                        exception_table,
                                        attributes_count,
                                        attributes: decoded.0,
                                    },
                                    decoded.1,
                                ),
                            ),
                        }
                    }
                }
            }
        }
    }
}

/// `n` attributes in a row starting at `pos`, each decoded by 
/// `spec_decode_attribute`.
pub open spec fn spec_decode_attributes(
    s: Seq<u8>,
    pos: int,
    pool: Seq<ConstantPoolItemView>,
    n: int,
) -> Result<(Seq<AttributeView>, int), ParserError>
    decreases s.len() - pos, 2int, n,
{
    if n <= 0 {
        Ok((Seq::empty(), pos))
    } else {
        match spec_decode_attribute(s, pos, pool) {
            Err(e) => Err(e),
            Ok(decoded) => {
                // A decoded attribute never ends before it starts nor past the
                // stream; the guard only hands that fact to the termination
                // measure.
                let next = if pos <= decoded.1 <= s.len() {
                    decoded.1
                } else {
                    pos
                };
                match spec_decode_attributes(s, next, pool, n - 1) {
                    Err(e) => Err(e),
                    Ok(rest) => Ok((seq![decoded.0] + rest.0, rest.1)),
                }
            },
        }
    }
}

/// Already-decoded attributes prefixed onto the outcome of decoding the
/// rest of a row.
pub open spec fn attrs_prepend(
    prefix: Seq<AttributeView>,
    rest: Result<(Seq<AttributeView>, int), ParserError>,
) -> Result<(Seq<AttributeView>, int), ParserError> {
    match rest {
        Ok(decoded) => Ok((prefix + decoded.0, decoded.1)),
        Err(e) => Err(e),
    }
}

/// The constant pool as the wire holds it: `slots` declared index slots
/// starting at `pos`, decoded entry by entry.  A `Long` or `Double` entry
/// fills two consecutive slots: the entry itself, then the synthetic
/// `Empty` placeholder that keeps later indices aligned.
pub open spec fn spec_decode_pool(s: Seq<u8>, pos: int, slots: int) -> Result<
    (Seq<ConstantPoolItemView>, int),
    ParserError,
>
    decreases slots,
{
    if slots <= 0 {
        Ok((Seq::empty(), pos))
    } else {
        match spec_decode_entry(s, pos) {
            Err(e) => Err(e),
            Ok(decoded) => {
                let entry = decoded.0;
                let next = decoded.1;
                if entry is Long || entry is Double {
                    pool_prepend(
                        seq![entry, ConstantPoolItemView::Empty],
                        spec_decode_pool(
                            s,
                            next,
                            if slots >= 2 {
                                slots - 2
                            } else {
                                0
                            },
                        ),
                    )
                } else {
                    pool_prepend(seq![entry], spec_decode_pool(s, next, slots - 1))
                }
            },
        }
    }
}

/// Already-decoded slots prefixed onto the outcome of decoding the rest of
/// the pool.
pub open spec fn pool_prepend(
    prefix: Seq<ConstantPoolItemView>,
    rest: Result<(Seq<ConstantPoolItemView>, int), ParserError>,
) -> Result<(Seq<ConstantPoolItemView>, int), ParserError> {
    match rest {
        Ok(decoded) => Ok((prefix + decoded.0, decoded.1)),
        Err(e) => Err(e),
    }
}

/// Prefixing in two steps is prefixing in one.
pub(crate) proof fn assert_pool_prepend_assoc(
    a: Seq<ConstantPoolItemView>,
    b: Seq<ConstantPoolItemView>,
    rest: Result<(Seq<ConstantPoolItemView>, int), ParserError>,
)
    ensures
        pool_prepend(a, pool_prepend(b, rest)) == pool_prepend(a + b, rest),
{
    match rest {
        Ok(decoded) => {
            assert(a + (b + decoded.0) =~= (a + b) + decoded.0);
        },
        Err(..) => {},
    }
}

/// Appending one attribute extends the sequence of values by its value.
proof fn lemma_attrs_view_push(s: Seq<Attribute>, a: Attribute)
    ensures
        attrs_view(s.push(a)) == attrs_view(s).push(attr_view(a)),
    decreases s.len(),
{
    if s.len() == 0 {
        assert(s.push(a)[0] == a);
        assert(s.push(a).drop_first() =~= Seq::<Attribute>::empty());
        assert(attrs_view(s.push(a)) == seq![attr_view(a)] + attrs_view(
            Seq::<Attribute>::empty(),
        ));
        assert(attrs_view(s.push(a)) =~= attrs_view(s).push(attr_view(a)));
    } else {
        assert(s.push(a)[0] == s[0]);
        assert(s.push(a).drop_first() =~= s.drop_first().push(a));
        lemma_attrs_view_push(s.drop_first(), a);
        assert(attrs_view(s.push(a)) == seq![attr_view(s[0])] + attrs_view(s.drop_first()).push(
            attr_view(a),
        ));
        assert(seq![attr_view(s[0])] + attrs_view(s.drop_first()).push(attr_view(a)) =~= (seq![
            attr_view(s[0]),
        ] + attrs_view(s.drop_first())).push(attr_view(a)));
    }
}

/// Appending one attribute handle extends the sequence of values by its
/// value.
pub(crate) proof fn lemma_rc_attrs_view_push(s: Seq<Rc<Attribute>>, a: Rc<Attribute>)
    ensures
        rc_attrs_view(s.push(a)) == rc_attrs_view(s).push(attr_view(*a)),
    decreases s.len(),
{
    if s.len() == 0 {
        assert(s.push(a)[0] == a);
        assert(s.push(a).drop_first() =~= Seq::<Rc<Attribute>>::empty());
        assert(rc_attrs_view(s.push(a)) == seq![attr_view(*a)] + rc_attrs_view(
            Seq::<Rc<Attribute>>::empty(),
        ));
        assert(rc_attrs_view(s.push(a)) =~= rc_attrs_view(s).push(attr_view(*a)));
    } else {
        assert(s.push(a)[0] == s[0]);
        assert(s.push(a).drop_first() =~= s.drop_first().push(a));
        lemma_rc_attrs_view_push(s.drop_first(), a);
        assert(rc_attrs_view(s.push(a)) == seq![attr_view(*s[0])] + rc_attrs_view(
            s.drop_first(),
        ).push(attr_view(*a)));
        assert(seq![attr_view(*s[0])] + rc_attrs_view(s.drop_first()).push(attr_view(*a)) =~= (seq![
            attr_view(*s[0]),
        ] + rc_attrs_view(s.drop_first())).push(attr_view(*a)));
    }
}

/// Whether a resolved attribute name is the literal "Code".
fn is_code_name(name: &String) -> (r: bool)
    ensures
        r == (name@ == "Code"@),
{
    let code: String = "Code".to_owned();
    *name == code
}

impl ExceptionHandler {
    /// Decode one exception-handler record: four big-endian two-byte
    /// fields.
    pub fn from<T: PrimitiveIterator>(iter: &mut T) -> (r: ParserResult<ExceptionHandler>)
        requires
            0 <= old(iter).pos() <= old(iter).stream().len(),
        ensures
            final(iter).stream() == old(iter).stream(),
            old(iter).pos() <= final(iter).pos() <= old(iter).stream().len(),
            old(iter).pos() + 8 <= old(iter).stream().len() ==> (r matches Ok(h) && h
                == spec_handler(old(iter).stream(), old(iter).pos()) && final(iter).pos() == old(
                iter,
            ).pos() + 8),
            old(iter).pos() + 8 > old(iter).stream().len() ==> (r matches Err(e) && e
                == ParserError::UnexpectedEndOfInput),
    {
        let start_pc = match iter.next_u2() {
            Ok(v) => v,
            Err(e) => {
                return Err(e);
            },
        };
        let end_pc = match iter.next_u2() {
            Ok(v) => v,
            Err(e) => {
                return Err(e);
            },
        };
        let handler_pc = match iter.next_u2() {
            Ok(v) => v,
            Err(e) => {
                return Err(e);
            },
        };
        let catch_type = match iter.next_u2() {
            Ok(v) => v,
            Err(e) => {
                return Err(e);
            },
        };
        Ok(ExceptionHandler { start_pc, end_pc, handler_pc, catch_type })
    }
}

impl CodeAttribute {
    /// Decode the body of a `Code` attribute, nested attributes included.
    pub fn from<T: PrimitiveIterator>(
        iter: &mut T,
        constant_pool: &Vec<ConstantPoolItem>,
    ) -> (r: ParserResult<CodeAttribute>)
        requires
            0 <= old(iter).pos() <= old(iter).stream().len(),
        ensures
            final(iter).stream() == old(iter).stream(),
            old(iter).pos() <= final(iter).pos() <= old(iter).stream().len(),
            match spec_decode_code(
                old(iter).stream(),
                old(iter).pos(),
                pool_view(constant_pool@),
            ) {
                Ok(decoded) => r matches Ok(code) && code_attr_view(code) == decoded.0
                    && final(iter).pos() == decoded.1,
                Err(e) => r matches Err(pe) && pe == e,
            },
        decreases old(iter).stream().len() - old(iter).pos(),
    {
        let ghost s = old(iter).stream();
        let ghost p0 = old(iter).pos();
        let ghost pv = pool_view(constant_pool@);

        let max_stack = match iter.next_u2() {
            Ok(v) => v,
            Err(e) => {
                return Err(e);
            },
        };
        let max_locals = match iter.next_u2() {
            Ok(v) => v,
            Err(e) => {
                return Err(e);
            },
        };
        let code_length = match iter.next_u4() {
            Ok(v) => v,
            Err(e) => {
                return Err(e);
            },
        };

        let mut code: Vec<u8> = Vec::new();
        for i in 0..code_length
            invariant
                s == old(iter).stream(),
                p0 == old(iter).pos(),
                0 <= p0,
                p0 + 8 <= s.len(),
                iter.stream() == s,
                iter.pos() == p0 + 8 + i,
                p0 + 8 + i <= s.len(),
                code_length == be_u32(s, p0 + 4),
                code@ == s.subrange(p0 + 8, p0 + 8 + i),
        {
            let b = match iter.next_u1() {
                Ok(b) => b,
                Err(e) => {
                    return Err(e);
                },
            };
            code.push(b);
            proof {
                assert(code@ =~= s.subrange(p0 + 8, p0 + 8 + i + 1));
            }
        }

        let ghost t = p0 + 8 + code_length as int;
        let exception_table_length = match iter.next_u2() {
            Ok(v) => v,
            Err(e) => {
                return Err(e);
            },
        };

        let mut exception_table: Vec<ExceptionHandler> = Vec::new();
        for i in 0..exception_table_length
            invariant
                s == old(iter).stream(),
                p0 == old(iter).pos(),
                0 <= p0,
                p0 + 8 + code_length as int + 2 <= s.len(),
                t == p0 + 8 + code_length as int,
                iter.stream() == s,
                iter.pos() == t + 2 + 8 * i,
                t + 2 + 8 * i <= s.len(),
                code_length == be_u32(s, p0 + 4),
                code@ == s.subrange(p0 + 8, p0 + 8 + code_length as int),
                exception_table_length == be_u16(s, t),
                exception_table@ == Seq::new(i as nat, |j: int| spec_handler(s, t + 2 + 8 * j)),
        {
            let handler = match ExceptionHandler::from(iter) {
                Ok(h) => h,
                Err(e) => {
                    return Err(e);
                },
            };
            exception_table.push(handler);
            proof {
                assert(exception_table@ =~= Seq::new(
                    (i + 1) as nat,
                    |j: int| spec_handler(s, t + 2 + 8 * j),
                ));
            }
        }

        let ghost count_pos = t + 2 + 8 * exception_table_length as int;
        let attributes_count = match iter.next_u2() {
            Ok(v) => v,
            Err(e) => {
                return Err(e);
            },
        };

        let ghost a0 = count_pos + 2;
        let mut attributes: Vec<Attribute> = Vec::new();
        for i in 0..attributes_count
            invariant
                s == old(iter).stream(),
                p0 == old(iter).pos(),
                0 <= p0,
                p0 + 8 + code_length as int + 2 <= s.len(),
                t == p0 + 8 + code_length as int,
                count_pos == t + 2 + 8 * exception_table_length as int,
                a0 == count_pos + 2,
                a0 <= s.len(),
                pv == pool_view(constant_pool@),
                iter.stream() == s,
                a0 <= iter.pos() <= s.len(),
                code_length == be_u32(s, p0 + 4),
                code@ == s.subrange(p0 + 8, p0 + 8 + code_length as int),
                exception_table_length == be_u16(s, t),
                exception_table@ == Seq::new(
                    exception_table_length as nat,
                    |j: int| spec_handler(s, t + 2 + 8 * j),
                ),
                attributes_count == be_u16(s, count_pos),
                spec_decode_attributes(s, a0, pv, attributes_count as int) == attrs_prepend(
                    attrs_view(attributes@),
                    spec_decode_attributes(
                        s,
                        iter.pos(),
                        pv,
                        attributes_count as int - attrs_view(attributes@).len(),
                    ),
                ),
                attrs_view(attributes@).len() == i,
        {
            let ghost prefix = attrs_view(attributes@);
            let attribute = match Attribute::from(iter, constant_pool) {
                Ok(a) => a,
                Err(e) => {
                    return Err(e);
                },
            };
            proof {
                lemma_attrs_view_push(attributes@, attribute);
            }
            attributes.push(attribute);
            proof {
                match spec_decode_attributes(
                    s,
                    iter.pos(),
                    pv,
                    attributes_count as int - attrs_view(attributes@).len(),
                ) {
                    Ok(rest) => {
                        assert(prefix + (seq![attrs_view(attributes@).last()] + rest.0) =~= attrs_view(
                            attributes@,
                        ) + rest.0);
                    },
                    Err(..) => {},
                }
            }
        }

        Ok(
            CodeAttribute {
                max_stack,
                max_locals,
                code_length,
                code,
                exception_table_length,
                exception_table,
                attributes_count,
                attributes,
            },
        )
    }
}

impl Attribute {
    /// Decode one attribute: a two-byte name index resolved as `Utf8`, a
    /// four-byte length, then the body.  A body named "Code" is decoded
    /// structurally; any other body is stored as exactly `length` opaque
    /// bytes, so the cursor always lands just past the declared length and
    /// unknown attribute kinds never derail decoding.  A name index that
    /// fails to resolve ends decoding after exactly the two index bytes.
    pub fn from<T: PrimitiveIterator>(
        iter: &mut T,
        constant_pool: &Vec<ConstantPoolItem>,
    ) -> (r: ParserResult<Attribute>)
        requires
            0 <= old(iter).pos() <= old(iter).stream().len(),
        ensures
            final(iter).stream() == old(iter).stream(),
            old(iter).pos() <= final(iter).pos() <= old(iter).stream().len(),
            match spec_decode_attribute(
                old(iter).stream(),
                old(iter).pos(),
                pool_view(constant_pool@),
            ) {
                Ok(decoded) => r matches Ok(a) && attr_view(a) == decoded.0 && final(iter).pos()
                    == decoded.1,
                Err(e) => r matches Err(pe) && pe == e,
            },
            (old(iter).pos() + 2 <= old(iter).stream().len() && spec_retrieve(
                pool_view(constant_pool@),
                be_u16(old(iter).stream(), old(iter).pos()) as int,
                ConstantPoolItemKind::Utf8,
            ) is Err) ==> final(iter).pos() == old(iter).pos() + 2,
        decreases old(iter).stream().len() - old(iter).pos(),
    {
        let ghost s = old(iter).stream();
        let ghost p0 = old(iter).pos();
        let ghost pv = pool_view(constant_pool@);

        let attribute_name_index = match iter.next_u2() {
            Ok(v) => v,
            Err(e) => {
                return Err(e);
            },
        };
        let attribute_name = match ConstantPoolItem::retrieve_utf8_info(
            attribute_name_index,
            constant_pool,
        ) {
            Ok(v) => v,
            Err(e) => {
                return Err(e);
            },
        };
        let attribute_length = match iter.next_u4() {
            Ok(v) => v,
            Err(e) => {
                return Err(e);
            },
        };

        if is_code_name(&attribute_name.value) {
            let code = match CodeAttribute::from(iter, constant_pool) {
                Ok(c) => c,
                Err(e) => {
                    return Err(e);
                },
            };
            Ok(Attribute::Code(Rc::new(code)))
        } else {
            let mut info: Vec<u8> = Vec::new();
            for i in 0..attribute_length
                invariant
                    s == old(iter).stream(),
                    p0 == old(iter).pos(),
                    0 <= p0,
                    p0 + 6 <= s.len(),
                    pv == pool_view(constant_pool@),
                    iter.stream() == s,
                    iter.pos() == p0 + 6 + i,
                    p0 + 6 + i <= s.len(),
                    attribute_length == be_u32(s, p0 + 2),
                    spec_retrieve(pv, be_u16(s, p0) as int, ConstantPoolItemKind::Utf8) == Ok::<
                        ConstantPoolItemView,
                        ParserError,
                    >(ConstantPoolItemView::Utf8(attribute_name@)),
                    attribute_name@.value != "Code"@,
                    info@ == s.subrange(p0 + 6, p0 + 6 + i),
            {
                let b = match iter.next_u1() {
                    Ok(b) => b,
                    Err(e) => {
                        return Err(e);
                    },
                };
                info.push(b);
                proof {
                    assert(info@ =~= s.subrange(p0 + 6, p0 + 6 + i + 1));
                }
            }
            Ok(Attribute::Unknown { attribute_name, info })
        }
    }
}

/// A field or method of the class: access flags, resolved name and
/// descriptor handles, and the member's attributes.  Fields and methods
/// share this exact shape; only the surrounding top-level counters tell
/// them apart.
#[derive(Debug)]
pub struct Field {
    pub access_flags: U2,
    pub name: Rc<Utf8Info>,
    pub descriptor: Rc<Utf8Info>,
    pub attributes_count: U2,
    pub attributes: Vec<Rc<Attribute>>,
}

/// A method of the class; see `Field` for the shared member shape.
#[derive(Debug)]
pub struct Method {
    pub access_flags: U2,
    pub name: Rc<Utf8Info>,
    pub descriptor: Rc<Utf8Info>,
    pub attributes_count: U2,
    pub attributes: Vec<Rc<Attribute>>,
}

/// The mathematical value of a decoded field or method.
pub struct MemberView {
    pub access_flags: u16,
    pub name: Utf8View,
    pub descriptor: Utf8View,
    pub attributes_count: u16,
    pub attributes: Seq<AttributeView>,
}

impl View for Field {
    type V = MemberView;

    open spec fn view(&self) -> MemberView {
        MemberView {
            access_flags: self.access_flags,
            name: self.name@,
            descriptor: self.descriptor@,
            attributes_count: self.attributes_count,
            attributes: rc_attrs_view(self.attributes@),
        }
    }
}

impl View for Method {
    type V = MemberView;

    open spec fn view(&self) -> MemberView {
        MemberView {
            access_flags: self.access_flags,
            name: self.name@,
            descriptor: self.descriptor@,
            attributes_count: self.attributes_count,
            attributes: rc_attrs_view(self.attributes@),
        }
    }
}

/// One field or method as the wire holds it at `pos`: access flags, a name
/// index and a descriptor index that must both resolve to `Utf8` entries (a
/// member without a resolvable name or descriptor is malformed), then its
/// attributes.
pub open spec fn spec_decode_member(
    s: Seq<u8>,
    pos: int,
    pool: Seq<ConstantPoolItemView>,
) -> Result<(MemberView, int), ParserError> {
    if pos + 4 > s.len() {
        Err(ParserError::UnexpectedEndOfInput)
    } else {
        let access_flags = be_u16(s, pos);
        let name_index = be_u16(s, pos + 2);
        match spec_retrieve(pool, name_index as int, ConstantPoolItemKind::Utf8) {
            Err(e) => Err(e),
            Ok(name_entry) => {
                if pos + 6 > s.len() {
                    Err(ParserError::UnexpectedEndOfInput)
                } else {
                    let descriptor_index = be_u16(s, pos + 4);
                    match spec_retrieve(pool, descriptor_index as int, ConstantPoolItemKind::Utf8) {
                        Err(e) => Err(e),
                        Ok(descriptor_entry) => {
                            if pos + 8 > s.len() {
                                Err(ParserError::UnexpectedEndOfInput)
                            } else {
                                let attributes_count = be_u16(s, pos + 6);
                                match spec_decode_attributes(
                                    s,
                                    pos + 8,
                                    pool,
                                    attributes_count as int,
                                ) {
                                    Err(e) => Err(e),
                                    Ok(decoded) => Ok(
                                        (
                                            MemberView {
                                                access_flags,
                                                name: utf8_payload(name_entry),
                                                descriptor: utf8_payload(descriptor_entry),
                                                attributes_count,
                                                attributes: decoded.0,
                                            },
                                            decoded.1,
                                        ),
                                    ),
                                }
                            }
                        },
                    }
                }
            },
        }
    }
}

impl Field {
    /// Decode one field: access flags, a name index and a descriptor
    /// index that must both resolve to `Utf8` entries, then the member's
    /// attributes.
    pub fn from<T: PrimitiveIterator>(
        iter: &mut T,
        constant_pool: &Vec<ConstantPoolItem>,
    ) -> (r: ParserResult<Field>)
        requires
            0 <= old(iter).pos() <= old(iter).stream().len(),
        ensures
            final(iter).stream() == old(iter).stream(),
            old(iter).pos() <= final(iter).pos() <= old(iter).stream().len(),
            match spec_decode_member(
                old(iter).stream(),
                old(iter).pos(),
                pool_view(constant_pool@),
            ) {
                Ok(decoded) => r matches Ok(member) && member@ == decoded.0 && final(iter).pos()
                    == decoded.1,
                Err(e) => r matches Err(pe) && pe == e,
            },
    {
        let ghost s = old(iter).stream();
        let ghost p0 = old(iter).pos();
        let ghost pv = pool_view(constant_pool@);

        let access_flags = match iter.next_u2() {
            Ok(v) => v,
            Err(e) => {
                return Err(e);
            },
        };
        let name_index = match iter.next_u2() {
            Ok(v) => v,
            Err(e) => {
                return Err(e);
            },
        };
        let name = match ConstantPoolItem::retrieve_utf8_info(name_index, constant_pool) {
            Ok(v) => v,
            Err(e) => {
                return Err(e);
            },
        };
        let descriptor_index = match iter.next_u2() {
            Ok(v) => v,
            Err(e) => {
                return Err(e);
            },
        };
        let descriptor = match ConstantPoolItem::retrieve_utf8_info(
            descriptor_index,
            constant_pool,
        ) {
            Ok(v) => v,
            Err(e) => {
                return Err(e);
            },
        };
        let attributes_count = match iter.next_u2() {
            Ok(v) => v,
            Err(e) => {
                return Err(e);
            },
        };

        let ghost a0 = p0 + 8;
        let mut attributes: Vec<Rc<Attribute>> = Vec::new();
        for i in 0..attributes_count
            invariant
                s == old(iter).stream(),
                p0 == old(iter).pos(),
                0 <= p0,
                a0 == p0 + 8,
                a0 <= s.len(),
                pv == pool_view(constant_pool@),
                iter.stream() == s,
                a0 <= iter.pos() <= s.len(),
                access_flags == be_u16(s, p0),
                spec_retrieve(pv, be_u16(s, p0 + 2) as int, ConstantPoolItemKind::Utf8) == Ok::<
                    ConstantPoolItemView,
                    ParserError,
                >(ConstantPoolItemView::Utf8(name@)),
                spec_retrieve(pv, be_u16(s, p0 + 4) as int, ConstantPoolItemKind::Utf8) == Ok::<
                    ConstantPoolItemView,
                    ParserError,
                >(ConstantPoolItemView::Utf8(descriptor@)),
                attributes_count == be_u16(s, p0 + 6),
                spec_decode_attributes(s, a0, pv, attributes_count as int) == attrs_prepend(
                    rc_attrs_view(attributes@),
                    spec_decode_attributes(
                        s,
                        iter.pos(),
                        pv,
                        attributes_count as int - rc_attrs_view(attributes@).len(),
                    ),
                ),
                rc_attrs_view(attributes@).len() == i,
        {
            let ghost prefix = rc_attrs_view(attributes@);
            let attribute = match Attribute::from(iter, constant_pool) {
                Ok(a) => a,
                Err(e) => {
                    return Err(e);
                },
            };
            let handle = Rc::new(attribute);
            proof {
                lemma_rc_attrs_view_push(attributes@, handle);
            }
            attributes.push(handle);
            proof {
                match spec_decode_attributes(
                    s,
                    iter.pos(),
                    pv,
                    attributes_count as int - rc_attrs_view(attributes@).len(),
                ) {
                    Ok(rest) => {
                        assert(prefix + (seq![rc_attrs_view(attributes@).last()] + rest.0)
                            =~= rc_attrs_view(attributes@) + rest.0);
                    },
                    Err(..) => {},
                }
            }
        }

        Ok(Field { access_flags, name, descriptor, attributes_count, attributes })
    }
}

impl Method {
    /// Decode one method: access flags, a name index and a descriptor
    /// index that must both resolve to `Utf8` entries, then the member's
    /// attributes.
    pub fn from<T: PrimitiveIterator>(
        iter: &mut T,
        constant_pool: &Vec<ConstantPoolItem>,
    ) -> (r: ParserResult<Method>)
        requires
            0 <= old(iter).pos() <= old(iter).stream().len(),
        ensures
            final(iter).stream() == old(iter).stream(),
            old(iter).pos() <= final(iter).pos() <= old(iter).stream().len(),
            match spec_decode_member(
                old(iter).stream(),
                old(iter).pos(),
                pool_view(constant_pool@),
            ) {
                Ok(decoded) => r matches Ok(member) && member@ == decoded.0 && final(iter).pos()
                    == decoded.1,
                Err(e) => r matches Err(pe) && pe == e,
            },
    {
        let ghost s = old(iter).stream();
        let ghost p0 = old(iter).pos();
        let ghost pv = pool_view(constant_pool@);

        let access_flags = match iter.next_u2() {
            Ok(v) => v,
            Err(e) => {
                return Err(e);
            },
        };
        let name_index = match iter.next_u2() {
            Ok(v) => v,
            Err(e) => {
                return Err(e);
            },
        };
        let name = match ConstantPoolItem::retrieve_utf8_info(name_index, constant_pool) {
            Ok(v) => v,
            Err(e) => {
                return Err(e);
            },
        };
        let descriptor_index = match iter.next_u2() {
            Ok(v) => v,
            Err(e) => {
                return Err(e);
            },
        };
        let descriptor = match ConstantPoolItem::retrieve_utf8_info(
            descriptor_index,
            constant_pool,
        ) {
            Ok(v) => v,
            Err(e) => {
                return Err(e);
            },
        };
        let attributes_count = match iter.next_u2() {
            Ok(v) => v,
            Err(e) => {
                return Err(e);
            },
        };

        let ghost a0 = p0 + 8;
        let mut attributes: Vec<Rc<Attribute>> = Vec::new();
        for i in 0..attributes_count
            invariant
                s == old(iter).stream(),
                p0 == old(iter).pos(),
                0 <= p0,
                a0 == p0 + 8,
                a0 <= s.len(),
                pv == pool_view(constant_pool@),
                iter.stream() == s,
                a0 <= iter.pos() <= s.len(),
                access_flags == be_u16(s, p0),
                spec_retrieve(pv, be_u16(s, p0 + 2) as int, ConstantPoolItemKind::Utf8) == Ok::<
                    ConstantPoolItemView,
                    ParserError,
                >(ConstantPoolItemView::Utf8(name@)),
                spec_retrieve(pv, be_u16(s, p0 + 4) as int, ConstantPoolItemKind::Utf8) == Ok::<
                    ConstantPoolItemView,
                    ParserError,
                >(ConstantPoolItemView::Utf8(descriptor@)),
                attributes_count == be_u16(s, p0 + 6),
                spec_decode_attributes(s, a0, pv, attributes_count as int) == attrs_prepend(
                    rc_attrs_view(attributes@),
                    spec_decode_attributes(
                        s,
                        iter.pos(),
                        pv,
                        attributes_count as int - rc_attrs_view(attributes@).len(),
                    ),
                ),
                rc_attrs_view(attributes@).len() == i,
        {
            let ghost prefix = rc_attrs_view(attributes@);
            let attribute = match Attribute::from(iter, constant_pool) {
                Ok(a) => a,
                Err(e) => {
                    return Err(e);
                },
            };
            let handle = Rc::new(attribute);
            proof {
                lemma_rc_attrs_view_push(attributes@, handle);
            }
            attributes.push(handle);
            proof {
                match spec_decode_attributes(
                    s,
                    iter.pos(),
                    pv,
                    attributes_count as int - rc_attrs_view(attributes@).len(),
                ) {
                    Ok(rest) => {
                        assert(prefix + (seq![rc_attrs_view(attributes@).last()] + rest.0)
                            =~= rc_attrs_view(attributes@) + rest.0);
                    },
                    Err(..) => {},
                }
            }
        }

        Ok(Method { access_flags, name, descriptor, attributes_count, attributes })
    }
}

/// The payload of a `Class` entry known to be of that kind.
pub open spec fn class_payload(entry: ConstantPoolItemView) -> ClassInfo
    recommends
        entry is Class,
{
    match entry {
        ConstantPoolItemView::Class(info) => info,
        _ => arbitrary(),
    }
}

/// The payload of a `String` entry known to be of that kind.
pub open spec fn string_payload(entry: ConstantPoolItemView) -> StringInfo
    recommends
        entry is String,
{
    match entry {
        ConstantPoolItemView::String(info) => info,
        _ => arbitrary(),
    }
}

/// A string constant followed to its text: the index must name a `String`
/// entry, whose `string_index` must in turn name the `Utf8` entry holding
/// the characters.
pub open spec fn spec_resolve_string(pool: Seq<ConstantPoolItemView>, index: int) -> Result<
    Seq<char>,
    ParserError,
> {
    match spec_retrieve(pool, index, ConstantPoolItemKind::String) {
        Err(e) => Err(e),
        Ok(entry) => {
            let info = string_payload(entry);
            match spec_retrieve(pool, info.string_index as int, ConstantPoolItemKind::Utf8) {
                Err(e) => Err(e),
                Ok(text_entry) => Ok(utf8_payload(text_entry).value),
            }
        },
    }
}

/// A read-only window onto a decoded constant pool, for looking up string
/// constants after decoding.
pub struct ConstantPoolResolver<'r> {
    pub constant_pool: &'r Vec<ConstantPoolItem>,
}

impl<'r> ConstantPoolResolver<'r> {
    /// Follow a `String` entry to its text and hand the text out as a
    /// fresh owned copy.
    pub fn resolve_string_constant(&self, index: U2) -> (r: ParserResult<String>)
        ensures
            match spec_resolve_string(pool_view(self.constant_pool@), index as int) {
                Ok(text) => r matches Ok(v) && v@ == text,
                Err(e) => r matches Err(pe) && pe == e,
            },
    {
        let string_info = match ConstantPoolItem::retrieve_string_info(index, self.constant_pool) {
            Ok(v) => v,
            Err(e) => {
                return Err(e);
            },
        };
        let utf8_info = match ConstantPoolItem::retrieve_utf8_info(
            string_info.string_index,
            self.constant_pool,
        ) {
            Ok(v) => v,
            Err(e) => {
                return Err(e);
            },
        };
        Ok(utf8_info.value.clone())
    }
}

/// The named bits of an access-flags mask, read straight off the mask.
pub struct AccessFlags;

impl AccessFlags {

    /// Whether the `0x0001` bit of the mask is set.
    pub fn is_public(access_flags: U2) -> (r: bool)
        ensures
            r == ((access_flags & 0x0001) != 0),
    {
        (access_flags & 0x0001) != 0
    }

    /// Whether the `0x0002` bit of the mask is set.
    pub fn is_private(access_flags: U2) -> (r: bool)
        ensures
            r == ((access_flags & 0x0002) != 0),
    {
        (access_flags & 0x0002) != 0
    }

    /// Whether the `0x0004` bit of the mask is set.
    pub fn is_protected(access_flags: U2) -> (r: bool)
        ensures
            r == ((access_flags & 0x0004) != 0),
    {
        (access_flags & 0x0004) != 0
    }

    /// Whether the `0x0008` bit of the mask is set.
    pub fn is_static(access_flags: U2) -> (r: bool)
        ensures
            r == ((access_flags & 0x0008) != 0),
    {
        (access_flags & 0x0008) != 0
    }

    /// Whether the `0x0010` bit of the mask is set.
    pub fn is_final(access_flags: U2) -> (r: bool)
        ensures
            r == ((access_flags & 0x0010) != 0),
    {
        (access_flags & 0x0010) != 0
    }

    /// Whether the `0x0020` bit of the mask is set.
    pub fn is_super(access_flags: U2) -> (r: bool)
        ensures
            r == ((access_flags & 0x0020) != 0),
    {
        (access_flags & 0x0020) != 0
    }

    /// Whether the `0x0040` bit of the mask is set.
    pub fn is_volatile(access_flags: U2) -> (r: bool)
        ensures
            r == ((access_flags & 0x0040) != 0),
    {
        (access_flags & 0x0040) != 0
    }

    /// Whether the `0x0040` bit of the mask is set.
    pub fn is_bridge(access_flags: U2) -> (r: bool)
        ensures
            r == ((access_flags & 0x0040) != 0),
    {
        (access_flags & 0x0040) != 0
    }

    /// Whether the `0x0080` bit of the mask is set.
    pub fn is_transient(access_flags: U2) -> (r: bool)
        ensures
            r == ((access_flags & 0x0080) != 0),
    {
        (access_flags & 0x0080) != 0
    }

    /// Whether the `0x0080` bit of the mask is set.
    pub fn is_varargs(access_flags: U2) -> (r: bool)
        ensures
            r == ((access_flags & 0x0080) != 0),
    {
        (access_flags & 0x0080) != 0
    }

    /// Whether the `0x0100` bit of the mask is set.
    pub fn is_native(access_flags: U2) -> (r: bool)
        ensures
            r == ((access_flags & 0x0100) != 0),
    {
        (access_flags & 0x0100) != 0
    }

    /// Whether the `0x0200` bit of the mask is set.
    pub fn is_interface(access_flags: U2) -> (r: bool)
        ensures
            r == ((access_flags & 0x0200) != 0),
    {
        (access_flags & 0x0200) != 0
    }

    /// Whether the `0x0400` bit of the mask is set.
    pub fn is_abstract(access_flags: U2) -> (r: bool)
        ensures
            r == ((access_flags & 0x0400) != 0),
    {
        (access_flags & 0x0400) != 0
    }

    /// Whether the `0x0800` bit of the mask is set.
    pub fn is_strict(access_flags: U2) -> (r: bool)
        ensures
            r == ((access_flags & 0x0800) != 0),
    {
        (access_flags & 0x0800) != 0
    }

    /// Whether the `0x1000` bit of the mask is set.
    pub fn is_synthetic(access_flags: U2) -> (r: bool)
        ensures
            r == ((access_flags & 0x1000) != 0),
    {
        (access_flags & 0x1000) != 0
    }

    /// Whether the `0x2000` bit of the mask is set.
    pub fn is_annotation(access_flags: U2) -> (r: bool)
        ensures
            r == ((access_flags & 0x2000) != 0),
    {
        (access_flags & 0x2000) != 0
    }

    /// Whether the `0x4000` bit of the mask is set.
    pub fn is_enum(access_flags: U2) -> (r: bool)
        ensures
            r == ((access_flags & 0x4000) != 0),
    {
        (access_flags & 0x4000) != 0
    }
}

} // verus!
