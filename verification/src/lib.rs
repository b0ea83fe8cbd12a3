use vstd::prelude::*;

pub mod components;
pub mod laws;
pub mod primitives;

use crate::components::{
    assert_pool_prepend_assoc, attrs_prepend, class_payload, pool_prepend, pool_view,
    rc_attrs_view, spec_decode_attributes, spec_decode_member, spec_decode_pool, spec_retrieve,
    utf8_payload, Attribute, AttributeView, ConstantPoolItem, ConstantPoolItemKind,
    ConstantPoolItemView, ConstantPoolResolver, Field, MemberView, Method, Utf8Info, Utf8View,
};
use crate::primitives::{be_u16, be_u32, PrimitiveIterator, U2, U4};

use std::rc::Rc;

verus! {

/// The result of every decoding step that can fail.
pub type ParserResult<T> = Result<T, ParserError>;

/// The ways a class-file byte stream can fail to decode.
///
/// Every failure is terminal: no partial class file is ever handed out,
/// and decoding never resumes, so where a contract does not pin the
/// cursor's resting place after a failure it is deliberately left open.
#[derive(Debug)]
pub enum ParserError {
    /// A constant-pool tag byte outside the known set.
    UnknownConstantPoolTag(u8),
    /// An index resolved to an entry of the wrong kind; the payload names the
    /// kind actually found.
    UnexpectedConstantPoolItem(&'static str),
    /// An index pointed outside the constant pool; the payload is the
    /// zero-based index that was looked up.
    ConstantPoolIndexOutOfBounds(usize),
    /// A text payload that is not well-formed UTF-8.
    InvalidUtf8,
    /// The stream ended in the middle of a field.
    UnexpectedEndOfInput,
}

/// A decoded class file: the header fields, the constant pool, and the
/// interface, field, method and attribute tables, exactly as the wire gave
/// them.  Built once from a byte stream and immutable thereafter.
#[derive(Debug)]
pub struct ClassFile {
    pub magic: U4,
    pub minor_version: U2,
    pub major_version: U2,
    pub constant_pool_count: U2,
    pub constant_pool: Vec<ConstantPoolItem>,
    pub access_flags: U2,
    pub this_class: U2,
    pub super_class: U2,
    pub interfaces_count: U2,
    pub interfaces: Vec<U2>,
    pub fields_count: U2,
    pub fields: Vec<Rc<Field>>,
    pub methods_count: U2,
    pub methods: Vec<Rc<Method>>,
    pub attributes_count: U2,
    pub attributes: Vec<Rc<Attribute>>,
}

/// The mathematical value of a decoded class file.
pub struct ClassFileView {
    pub magic: u32,
    pub minor_version: u16,
    pub major_version: u16,
    pub constant_pool_count: u16,
    pub constant_pool: Seq<ConstantPoolItemView>,
    pub access_flags: u16,
    pub this_class: u16,
    pub super_class: u16,
    pub interfaces_count: u16,
    pub interfaces: Seq<u16>,
    pub fields_count: u16,
    pub fields: Seq<MemberView>,
    pub methods_count: u16,
    pub methods: Seq<MemberView>,
    pub attributes_count: u16,
    pub attributes: Seq<AttributeView>,
}

/// The mathematical values of a sequence of shared field handles.
pub open spec fn fields_view(s: Seq<Rc<Field>>) -> Seq<MemberView> {
    Seq::new(s.len(), |i: int| s[i]@)
}

/// The mathematical values of a sequence of shared method handles.
pub open spec fn methods_view(s: Seq<Rc<Method>>) -> Seq<MemberView> {
    Seq::new(s.len(), |i: int| s[i]@)
}

impl View for ClassFile {
    type V = ClassFileView;

    open spec fn view(&self) -> ClassFileView {
        ClassFileView {
            magic: self.magic,
            minor_version: self.minor_version,
            major_version: self.major_version,
            constant_pool_count: self.constant_pool_count,
            constant_pool: pool_view(self.constant_pool@),
            access_flags: self.access_flags,
            this_class: self.this_class,
            super_class: self.super_class,
            interfaces_count: self.interfaces_count,
            interfaces: self.interfaces@,
            fields_count: self.fields_count,
            fields: fields_view(self.fields@),
            methods_count: self.methods_count,
            methods: methods_view(self.methods@),
            attributes_count: self.attributes_count,
            attributes: rc_attrs_view(self.attributes@),
        }
    }
}

/// `n` interface indices in a row starting at `pos`, each a big-endian
/// two-byte value.
pub open spec fn spec_decode_interfaces(s: Seq<u8>, pos: int, n: int) -> Result<
    (Seq<u16>, int),
    ParserError,
> {
    if pos + 2 * n > s.len() {
        Err(ParserError::UnexpectedEndOfInput)
    } else {
        Ok((Seq::new(n as nat, |i: int| be_u16(s, pos + 2 * i)), pos + 2 * n))
    }
}

/// `n` members (fields or methods) in a row starting at `pos`.
pub open spec fn spec_decode_members(
    s: Seq<u8>,
    pos: int,
    pool: Seq<ConstantPoolItemView>,
    n: int,
) -> Result<(Seq<MemberView>, int), ParserError>
    decreases n,
{
    if n <= 0 {
        Ok((Seq::empty(), pos))
    } else {
        match spec_decode_member(s, pos, pool) {
            Err(e) => Err(e),
            Ok(decoded) => {
                match spec_decode_members(s, decoded.1, pool, n - 1) {
                    Err(e) => Err(e),
                    Ok(rest) => Ok((seq![decoded.0] + rest.0, rest.1)),
                }
            },
        }
    }
}

/// Already-decoded members prefixed onto the outcome of decoding the rest
/// of a member table.
pub open spec fn members_prepend(
    prefix: Seq<MemberView>,
    rest: Result<(Seq<MemberView>, int), ParserError>,
) -> Result<(Seq<MemberView>, int), ParserError> {
    match rest {
        Ok(decoded) => Ok((prefix + decoded.0, decoded.1)),
        Err(e) => Err(e),
    }
}

/// A whole class file as the wire holds it at `pos`: the magic sentinel,
/// the version pair, the constant pool under its declared count, the access
/// flags and class references, then the interface, field, method and
/// attribute tables, strictly in that order.  The constant pool is decoded
/// before anything that resolves indices into it.
pub open spec fn spec_decode_class_file(s: Seq<u8>, pos: int) -> Result<
    (ClassFileView, int),
    ParserError,
> {
    if pos + 10 > s.len() {
        Err(ParserError::UnexpectedEndOfInput)
    } else {
        let magic = be_u32(s, pos);
        let minor_version = be_u16(s, pos + 4);
        let major_version = be_u16(s, pos + 6);
        let constant_pool_count = be_u16(s, pos + 8);
        if constant_pool_count == 0 {
            Err(ParserError::UnexpectedEndOfInput)
        } else {
            match spec_decode_pool(s, pos + 10, constant_pool_count as int - 1) {
                Err(e) => Err(e),
                Ok(pool_decoded) => {
                    let constant_pool = pool_decoded.0;
                    let p1 = pool_decoded.1;
                    if p1 + 8 > s.len() {
                        Err(ParserError::UnexpectedEndOfInput)
                    } else {
                        let access_flags = be_u16(s, p1);
                        let this_class = be_u16(s, p1 + 2);
                        let super_class = be_u16(s, p1 + 4);
                        let interfaces_count = be_u16(s, p1 + 6);
                        match spec_decode_interfaces(s, p1 + 8, interfaces_count as int) {
                            Err(e) => Err(e),
                            Ok(ifs) => {
                                let interfaces = ifs.0;
                                let p2 = ifs.1;
                                if p2 + 2 > s.len() {
                                    Err(ParserError::UnexpectedEndOfInput)
                                } else {
                                    let fields_count = be_u16(s, p2);
                                    match spec_decode_members(
                                        s,
                                        p2 + 2,
                                        constant_pool,
                                        fields_count as int,
                                    ) {
                                        Err(e) => Err(e),
                                        Ok(fs) => {
                                            let fields = fs.0;
                                            let p3 = fs.1;
                                            if p3 + 2 > s.len() {
                                                Err(ParserError::UnexpectedEndOfInput)
                                            } else {
                                                let methods_count = be_u16(s, p3);
                                                match spec_decode_members(
                                                    s,
                                                    p3 + 2,
                                                    constant_pool,
                                                    methods_count as int,
                                                ) {
                                                    Err(e) => Err(e),
                                                    Ok(ms) => {
                                                        let methods = ms.0;
                                                        let p4 = ms.1;
                                                        if p4 + 2 > s.len() {
                                                            Err(ParserError::UnexpectedEndOfInput)
                                                        } else {
                                                            let attributes_count = be_u16(s, p4);
                                                            match spec_decode_attributes(
                                                                s,
                                                                p4 + 2,
                                                                constant_pool,
                                                                attributes_count as int,
                                                            ) {
                                                                Err(e) => Err(e),
                                                                Ok(ats) => Ok(
                                                                    (
                                                                        ClassFileView {
                                                                            magic,
                                                                            minor_version,
                                                                            major_version,
                                                                            constant_pool_count,
                                                                            constant_pool,
                                                                            access_flags,
                                                                            this_class,
                                                                            super_class,
                                                                            interfaces_count,
                                                                            interfaces,
                                                                            fields_count,
                                                                            fields,
                                                                            methods_count,
                                                                            methods,
                                                                            attributes_count,
                                                                            attributes: ats.0,
                                                                        },
                                                                        ats.1,
                                                                    ),
                                                                ),
                                                            }
                                                        }
                                                    },
                                                }
                                            }
                                        },
                                    }
                                }
                            },
                        }
                    }
                },
            }
        }
    }
}

/// The class's own name followed through the pool: the index must name a
/// `Class` entry, whose `name_index` must in turn name the `Utf8` entry
/// holding the textual name.
pub open spec fn spec_classname(pool: Seq<ConstantPoolItemView>, this_class: int) -> Result<
    Utf8View,
    ParserError,
> {
    match spec_retrieve(pool, this_class, ConstantPoolItemKind::Class) {
        Err(e) => Err(e),
        Ok(entry) => {
            let info = class_payload(entry);
            match spec_retrieve(pool, info.name_index as int, ConstantPoolItemKind::Utf8) {
                Err(e) => Err(e),
                Ok(text_entry) => Ok(utf8_payload(text_entry)),
            }
        },
    }
}

/// The first member of the list whose name is `name`, if any.
pub open spec fn spec_find_method(methods: Seq<MemberView>, name: Seq<char>) -> Option<MemberView>
    decreases methods.len(),
{
    if methods.len() == 0 {
        None
    } else if methods[0].name.value == name {
        Some(methods[0])
    } else {
        spec_find_method(methods.drop_first(), name)
    }
}

impl ClassFile {
    /// Decode a whole class file from the cursor, in strict wire order:
    /// magic, versions, constant pool, access flags and class references,
    /// interfaces, fields, methods, class attributes.  The first failure
    /// ends decoding; no partial class file is handed out.  The magic
    /// sentinel is stored as read, not validated: the error taxonomy has no
    /// failure for a wrong sentinel, and consumers check it.  A declared
    /// constant-pool count of zero is malformed -- the count field covers
    /// the reserved zeroth index, so every well-formed file declares at
    /// least one -- and fails with `UnexpectedEndOfInput`, as a stream that
    /// cannot satisfy its own header.
    pub fn from<T: PrimitiveIterator>(iter: &mut T) -> (r: ParserResult<ClassFile>)
        requires
            0 <= old(iter).pos() <= old(iter).stream().len(),
        ensures
            final(iter).stream() == old(iter).stream(),
            old(iter).pos() <= final(iter).pos() <= old(iter).stream().len(),
            match spec_decode_class_file(old(iter).stream(), old(iter).pos()) {
                Ok(decoded) => r matches Ok(class_file) && class_file@ == decoded.0
                    && final(iter).pos() == decoded.1,
                Err(e) => r matches Err(pe) && pe == e,
            },
    {
        let magic = match iter.next_u4() {
            Ok(v) => v,
            Err(e) => {
                return Err(e);
            },
        };
        let minor_version = match iter.next_u2() {
            Ok(v) => v,
            Err(e) => {
                return Err(e);
            },
        };
        let major_version = match iter.next_u2() {
            Ok(v) => v,
            Err(e) => {
                return Err(e);
            },
        };
        let constant_pool_count = match iter.next_u2() {
            Ok(v) => v,
            Err(e) => {
                return Err(e);
            },
        };

        // One declared slot is reserved: the pool is indexed from one, so a
        // count of zero cannot describe any pool at all.
        if constant_pool_count == 0 {
            return Err(ParserError::UnexpectedEndOfInput);
        }
        let actual_constant_pool_count: U2 = constant_pool_count - 1;
        let constant_pool = match Self::build_constant_pool(actual_constant_pool_count, iter) {
            Ok(v) => v,
            Err(e) => {
                return Err(e);
            },
        };

        let access_flags = match iter.next_u2() {
            Ok(v) => v,
            Err(e) => {
                return Err(e);
            },
        };
        let this_class = match iter.next_u2() {
            Ok(v) => v,
            Err(e) => {
                return Err(e);
            },
        };
        let super_class = match iter.next_u2() {
            Ok(v) => v,
            Err(e) => {
                return Err(e);
            },
        };

        let interfaces_count = match iter.next_u2() {
            Ok(v) => v,
            Err(e) => {
                return Err(e);
            },
        };
        let interfaces = match Self::decode_interfaces(interfaces_count, iter) {
            Ok(v) => v,
            Err(e) => {
                return Err(e);
            },
        };

        let fields_count = match iter.next_u2() {
            Ok(v) => v,
            Err(e) => {
                return Err(e);
            },
        };
        let fields = match Self::decode_fields(fields_count, iter, &constant_pool) {
            Ok(v) => v,
            Err(e) => {
                return Err(e);
            },
        };

        let methods_count = match iter.next_u2() {
            Ok(v) => v,
            Err(e) => {
                return Err(e);
            },
        };
        let methods = match Self::decode_methods(methods_count, iter, &constant_pool) {
            Ok(v) => v,
            Err(e) => {
                return Err(e);
            },
        };

        let attributes_count = match iter.next_u2() {
            Ok(v) => v,
            Err(e) => {
                return Err(e);
            },
        };
        let attributes = match Self::decode_class_attributes(attributes_count, iter, &constant_pool) {
            Ok(v) => v,
            Err(e) => {
                return Err(e);
            },
        };

        Ok(
            ClassFile {
                magic,
                minor_version,
                major_version,
                constant_pool_count,
                constant_pool,
                access_flags,
                this_class,
                super_class,
                interfaces_count,
                interfaces,
                fields_count,
                fields,
                methods_count,
                methods,
                attributes_count,
                attributes,
            },
        )
    }

    /// Resolve the class's own name: `this_class` must name a `Class`
    /// entry, whose name index must name the `Utf8` entry holding the text.
    pub fn classname(&self) -> (r: ParserResult<Rc<Utf8Info>>)
        ensures
            match spec_classname(pool_view(self.constant_pool@), self.this_class as int) {
                Ok(text) => r matches Ok(info) && info@ == text,
                Err(e) => r matches Err(pe) && pe == e,
            },
    {
        let class_info = match ConstantPoolItem::retrieve_class_info(
            self.this_class,
            &self.constant_pool,
        ) {
            Ok(v) => v,
            Err(e) => {
                return Err(e);
            },
        };
        let utf8_info = match ConstantPoolItem::retrieve_utf8_info(
            class_info.name_index,
            &self.constant_pool,
        ) {
            Ok(v) => v,
            Err(e) => {
                return Err(e);
            },
        };
        Ok(utf8_info)
    }

    /// The first method named "main", if any.
    pub fn maybe_resolve_main_method(&self) -> (r: Option<Rc<Method>>)
        ensures
            match r {
                Some(method) => spec_find_method(methods_view(self.methods@), "main"@)
                    == Some(method@),
                None => spec_find_method(methods_view(self.methods@), "main"@) is None,
            },
    {
        self.maybe_resolve_method("main")
    }

    /// The first method with the given name; absence is an ordinary
    /// outcome, not an error.
    pub fn maybe_resolve_method(&self, name: &str) -> (r: Option<Rc<Method>>)
        ensures
            match r {
                Some(method) => spec_find_method(methods_view(self.methods@), name@)
                    == Some(method@),
                None => spec_find_method(methods_view(self.methods@), name@) is None,
            },
    {
        let query: String = name.to_owned();
        let total = self.methods.len();
        let mut idx: usize = 0;
        proof {
            assert(methods_view(self.methods@).skip(0) =~= methods_view(self.methods@));
        }
        while idx < total
            invariant
                total == self.methods.len(),
                0 <= idx <= total,
                query@ == name@,
                spec_find_method(methods_view(self.methods@), name@) == spec_find_method(
                    methods_view(self.methods@).skip(idx as int),
                    name@,
                ),
            decreases total - idx,
        {
            let ghost mv = methods_view(self.methods@);
            proof {
                assert(mv.skip(idx as int)[0] == mv[idx as int]);
                assert(mv.skip(idx as int).drop_first() =~= mv.skip(idx as int + 1));
            }
            let method = &self.methods[idx];
            if method.name.value == query {
                return Some(method.clone());
            }
            idx = idx + 1;
        }
        proof {
            assert(methods_view(self.methods@).skip(total as int) =~= Seq::<MemberView>::empty());
        }
        None
    }

    /// A resolver borrowing this class file's constant pool.
    pub fn constant_pool_resolver(&self) -> (r: ConstantPoolResolver)
        ensures
            r.constant_pool@ == self.constant_pool@,
    {
        ConstantPoolResolver { constant_pool: &self.constant_pool }
    }

    /// Decode `constant_pool_count` declared slots of the constant pool.  The
    /// count here is the usable-slot count: the wire's `constant_pool_count`
    /// field minus one.
    pub fn build_constant_pool<T: PrimitiveIterator>(
        constant_pool_count: U2,
        iter: &mut T,
    ) -> (r: ParserResult<Vec<ConstantPoolItem>>)
        requires
            0 <= old(iter).pos() <= old(iter).stream().len(),
        ensures
            final(iter).stream() == old(iter).stream(),
            old(iter).pos() <= final(iter).pos() <= old(iter).stream().len(),
            match spec_decode_pool(
                old(iter).stream(),
                old(iter).pos(),
                constant_pool_count as int,
            ) {
                Ok(decoded) => r matches Ok(pool) && pool_view(pool@) == decoded.0
                    && final(iter).pos() == decoded.1,
                Err(e) => r matches Err(pe) && pe == e,
            },
    {
        let ghost s = old(iter).stream();
        let ghost p0 = old(iter).pos();
        let ghost n = constant_pool_count as int;
        let mut should_skip = false;
        let mut constant_pool: Vec<ConstantPoolItem> = Vec::new();

        for i in 0..constant_pool_count
            invariant
                s == old(iter).stream(),
                p0 == old(iter).pos(),
                n == constant_pool_count as int,
                iter.stream() == s,
                0 <= p0 <= iter.pos() <= s.len(),
                should_skip ==> pool_view(constant_pool@).len() == i + 1,
                !should_skip ==> pool_view(constant_pool@).len() == i,
                spec_decode_pool(s, p0, n) == pool_prepend(
                    pool_view(constant_pool@),
                    spec_decode_pool(s, iter.pos(), n - pool_view(constant_pool@).len()),
                ),
        {
            if should_skip {
                should_skip = false;
            } else {
                let ghost pool_so_far = pool_view(constant_pool@);
                let ghost cur = iter.pos();
                let constant_pool_item = match ConstantPoolItem::from(iter) {
                    Ok(item) => item,
                    Err(e) => {
                        return Err(e);
                    },
                };
                proof {
                    assert(n - pool_so_far.len() >= 1);
                }
                match constant_pool_item {
                    item @ ConstantPoolItem::Long(..) | item @ ConstantPoolItem::Double(..) => {
                        proof {
                            let m = n - pool_so_far.len();
                            if m == 1 {
                                assert(spec_decode_pool(s, iter.pos(), m - 2) == spec_decode_pool(
                                    s,
                                    iter.pos(),
                                    0,
                                ));
                            }
                        }
                        should_skip = true;
                        let ghost item_view = item@;
                        constant_pool.push(item);
                        constant_pool.push(ConstantPoolItem::Empty);
                        proof {
                            assert(pool_view(constant_pool@) =~= pool_so_far + seq![
                                item_view,
                                ConstantPoolItemView::Empty,
                            ]);
                            assert_pool_prepend_assoc(
                                pool_so_far,
                                seq![item_view, ConstantPoolItemView::Empty],
                                spec_decode_pool(s, iter.pos(), n - pool_view(constant_pool@).len()),
                            );
                        }
                    },
                    item => {
                        let ghost item_view = item@;
                        constant_pool.push(item);
                        proof {
                            assert(pool_view(constant_pool@) =~= pool_so_far + seq![item_view]);
                            assert_pool_prepend_assoc(
                                pool_so_far,
                                seq![item_view],
                                spec_decode_pool(s, iter.pos(), n - pool_view(constant_pool@).len()),
                            );
                        }
                    },
                }
            }
        }
        Ok(constant_pool)
    }

    /// Read `count` interface indices.
    fn decode_interfaces<T: PrimitiveIterator>(count: U2, iter: &mut T) -> (r: ParserResult<
        Vec<U2>,
    >)
        requires
            0 <= old(iter).pos() <= old(iter).stream().len(),
        ensures
            final(iter).stream() == old(iter).stream(),
            old(iter).pos() <= final(iter).pos() <= old(iter).stream().len(),
            match spec_decode_interfaces(old(iter).stream(), old(iter).pos(), count as int) {
                Ok(decoded) => r matches Ok(v) && v@ == decoded.0 && final(iter).pos()
                    == decoded.1,
                Err(e) => r matches Err(pe) && pe == e,
            },
    {
        let ghost s = old(iter).stream();
        let ghost p0 = old(iter).pos();
        let mut interfaces: Vec<U2> = Vec::new();
        for i in 0..count
            invariant
                s == old(iter).stream(),
                p0 == old(iter).pos(),
                0 <= p0,
                iter.stream() == s,
                iter.pos() == p0 + 2 * i,
                p0 + 2 * i <= s.len(),
                interfaces@ == Seq::new(i as nat, |j: int| be_u16(s, p0 + 2 * j)),
        {
            let index = match iter.next_u2() {
                Ok(v) => v,
                Err(e) => {
                    return Err(e);
                },
            };
            interfaces.push(index);
            proof {
                assert(interfaces@ =~= Seq::new((i + 1) as nat, |j: int| be_u16(s, p0 + 2 * j)));
            }
        }
        Ok(interfaces)
    }

    /// Read `count` fields, each behind a fresh shared handle.
    fn decode_fields<T: PrimitiveIterator>(
        count: U2,
        iter: &mut T,
        constant_pool: &Vec<ConstantPoolItem>,
    ) -> (r: ParserResult<Vec<Rc<Field>>>)
        requires
            0 <= old(iter).pos() <= old(iter).stream().len(),
        ensures
            final(iter).stream() == old(iter).stream(),
            old(iter).pos() <= final(iter).pos() <= old(iter).stream().len(),
            match spec_decode_members(
                old(iter).stream(),
                old(iter).pos(),
                pool_view(constant_pool@),
                count as int,
            ) {
                Ok(decoded) => r matches Ok(v) && fields_view(v@) == decoded.0 && final(iter).pos()
                    == decoded.1,
                Err(e) => r matches Err(pe) && pe == e,
            },
    {
        let ghost s = old(iter).stream();
        let ghost p0 = old(iter).pos();
        let ghost pv = pool_view(constant_pool@);
        let mut fields: Vec<Rc<Field>> = Vec::new();
        for i in 0..count
            invariant
                s == old(iter).stream(),
                p0 == old(iter).pos(),
                0 <= p0,
                pv == pool_view(constant_pool@),
                iter.stream() == s,
                p0 <= iter.pos() <= s.len(),
                fields_view(fields@).len() == i,
                spec_decode_members(s, p0, pv, count as int) == members_prepend(
                    fields_view(fields@),
                    spec_decode_members(s, iter.pos(), pv, count as int - i),
                ),
        {
            let ghost prefix = fields_view(fields@);
            let field = match Field::from(iter, constant_pool) {
                Ok(v) => v,
                Err(e) => {
                    return Err(e);
                },
            };
            let handle = Rc::new(field);
            let ghost member_view = handle@;
            fields.push(handle);
            proof {
                assert(fields_view(fields@) =~= prefix.push(member_view));
                match spec_decode_members(s, iter.pos(), pv, count as int - i - 1) {
                    Ok(rest) => {
                        assert(prefix + (seq![member_view] + rest.0) =~= prefix.push(member_view)
                            + rest.0);
                    },
                    Err(..) => {},
                }
            }
        }
        Ok(fields)
    }

    /// Read `count` methods, each behind a fresh shared handle.
    fn decode_methods<T: PrimitiveIterator>(
        count: U2,
        iter: &mut T,
        constant_pool: &Vec<ConstantPoolItem>,
    ) -> (r: ParserResult<Vec<Rc<Method>>>)
        requires
            0 <= old(iter).pos() <= old(iter).stream().len(),
        ensures
            final(iter).stream() == old(iter).stream(),
            old(iter).pos() <= final(iter).pos() <= old(iter).stream().len(),
            match spec_decode_members(
                old(iter).stream(),
                old(iter).pos(),
                pool_view(constant_pool@),
                count as int,
            ) {
                Ok(decoded) => r matches Ok(v) && methods_view(v@) == decoded.0
                    && final(iter).pos() == decoded.1,
                Err(e) => r matches Err(pe) && pe == e,
            },
    {
        let ghost s = old(iter).stream();
        let ghost p0 = old(iter).pos();
        let ghost pv = pool_view(constant_pool@);
        let mut methods: Vec<Rc<Method>> = Vec::new();
        for i in 0..count
            invariant
                s == old(iter).stream(),
                p0 == old(iter).pos(),
                0 <= p0,
                pv == pool_view(constant_pool@),
                iter.stream() == s,
                p0 <= iter.pos() <= s.len(),
                methods_view(methods@).len() == i,
                spec_decode_members(s, p0, pv, count as int) == members_prepend(
                    methods_view(methods@),
                    spec_decode_members(s, iter.pos(), pv, count as int - i),
                ),
        {
            let ghost prefix = methods_view(methods@);
            let method = match Method::from(iter, constant_pool) {
                Ok(v) => v,
                Err(e) => {
                    return Err(e);
                },
            };
            let handle = Rc::new(method);
            let ghost member_view = handle@;
            methods.push(handle);
            proof {
                assert(methods_view(methods@) =~= prefix.push(member_view));
                match spec_decode_members(s, iter.pos(), pv, count as int - i - 1) {
                    Ok(rest) => {
                        assert(prefix + (seq![member_view] + rest.0) =~= prefix.push(member_view)
                            + rest.0);
                    },
                    Err(..) => {},
                }
            }
        }
        Ok(methods)
    }

    /// Read `count` class-level attributes, each behind a fresh shared
    /// handle.
    fn decode_class_attributes<T: PrimitiveIterator>(
        count: U2,
        iter: &mut T,
        constant_pool: &Vec<ConstantPoolItem>,
    ) -> (r: ParserResult<Vec<Rc<Attribute>>>)
        requires
            0 <= old(iter).pos() <= old(iter).stream().len(),
        ensures
            final(iter).stream() == old(iter).stream(),
            old(iter).pos() <= final(iter).pos() <= old(iter).stream().len(),
            match spec_decode_attributes(
                old(iter).stream(),
                old(iter).pos(),
                pool_view(constant_pool@),
                count as int,
            ) {
                Ok(decoded) => r matches Ok(v) && rc_attrs_view(v@) == decoded.0
                    && final(iter).pos() == decoded.1,
                Err(e) => r matches Err(pe) && pe == e,
            },
    {
        let ghost s = old(iter).stream();
        let ghost p0 = old(iter).pos();
        let ghost pv = pool_view(constant_pool@);
        let mut attributes: Vec<Rc<Attribute>> = Vec::new();
        for i in 0..count
            invariant
                s == old(iter).stream(),
                p0 == old(iter).pos(),
                0 <= p0,
                pv == pool_view(constant_pool@),
                iter.stream() == s,
                p0 <= iter.pos() <= s.len(),
                rc_attrs_view(attributes@).len() == i,
                spec_decode_attributes(s, p0, pv, count as int) == attrs_prepend(
                    rc_attrs_view(attributes@),
                    spec_decode_attributes(s, iter.pos(), pv, count as int - i),
                ),
        {
            let ghost prefix = rc_attrs_view(attributes@);
            let attribute = match Attribute::from(iter, constant_pool) {
                Ok(v) => v,
                Err(e) => {
                    return Err(e);
                },
            };
            let handle = Rc::new(attribute);
            proof {
                crate::components::lemma_rc_attrs_view_push(attributes@, handle);
            }
            attributes.push(handle);
            proof {
                match spec_decode_attributes(s, iter.pos(), pv, count as int - i - 1) {
                    Ok(rest) => {
                        assert(prefix + (seq![rc_attrs_view(attributes@).last()] + rest.0)
                            =~= rc_attrs_view(attributes@) + rest.0);
                    },
                    Err(..) => {},
                }
            }
        }
        Ok(attributes)
    }
}

} // verus!
