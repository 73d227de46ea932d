//! The class structure after the constant pool: flags, names, interfaces,
//! fields, methods and attributes, and the loader that reads a whole class.
use vstd::prelude::*;

use crate::error::VmError;
use crate::pool::{opt_text, spec_class_name, spec_pool, spec_resolve, ConstPool, ConstView};
use crate::reader::{
    lemma_repeat_err, repeat, spec_bytes, spec_u2, spec_u4, Loader, Parsed,
};

verus! {

/// A named, opaque block of bytes attached to a class, field or method.
#[derive(Debug)]
pub struct Attribute {
    pub name: String,
    pub data: Vec<u8>,
}

pub struct AttributeView {
    pub name: Seq<char>,
    pub data: Seq<u8>,
}

impl View for Attribute {
    type V = AttributeView;

    open spec fn view(&self) -> AttributeView {
        AttributeView { name: self.name@, data: self.data@ }
    }
}

/// A field or a method: both have this shape.
#[derive(Debug)]
pub struct Field {
    pub flags: u16,
    pub name: String,
    pub descriptor: String,
    pub attributes: Vec<Attribute>,
}

pub struct FieldView {
    pub flags: u16,
    pub name: Seq<char>,
    pub descriptor: Seq<char>,
    pub attributes: Seq<AttributeView>,
}

impl View for Field {
    type V = FieldView;

    open spec fn view(&self) -> FieldView {
        FieldView {
            flags: self.flags,
            name: self.name@,
            descriptor: self.descriptor@,
            attributes: self.attributes@.map_values(|a: Attribute| a@),
        }
    }
}

/// A loaded class.
#[derive(Debug)]
pub struct Class {
    pub const_pool: ConstPool,
    pub name: String,
    pub super_: String,
    pub flags: u16,
    pub interfaces: Vec<String>,
    pub fields: Vec<Field>,
    pub methods: Vec<Field>,
    pub attributes: Vec<Attribute>,
}

pub struct ClassView {
    pub const_pool: Seq<ConstView>,
    pub name: Seq<char>,
    pub super_: Seq<char>,
    pub flags: u16,
    pub interfaces: Seq<Seq<char>>,
    pub fields: Seq<FieldView>,
    pub methods: Seq<FieldView>,
    pub attributes: Seq<AttributeView>,
}

impl View for Class {
    type V = ClassView;

    open spec fn view(&self) -> ClassView {
        ClassView {
            const_pool: self.const_pool@,
            name: self.name@,
            super_: self.super_@,
            flags: self.flags,
            interfaces: self.interfaces@.map_values(|s: String| s@),
            fields: self.fields@.map_values(|f: Field| f@),
            methods: self.methods@.map_values(|f: Field| f@),
            attributes: self.attributes@.map_values(|a: Attribute| a@),
        }
    }
}

/// A resolved name, or the empty name where resolution gave nothing.
pub open spec fn or_empty(o: Option<Seq<char>>) -> Seq<char> {
    match o {
        Some(s) => s,
        None => Seq::empty(),
    }
}

/// The texts of the resolved names, in order, skipping the unresolved ones.
pub open spec fn resolved_only(s: Seq<Option<Seq<char>>>) -> Seq<Seq<char>>
    decreases s.len(),
{
    if s.len() == 0 {
        Seq::empty()
    } else {
        let rest = resolved_only(s.drop_last());
        match s.last() {
            Some(t) => rest.push(t),
            None => rest,
        }
    }
}

/// One attribute at `p`: a name index, a 32-bit length, then the payload.
pub open spec fn spec_attr(d: Seq<u8>, pool: Seq<ConstView>, p: int) -> Parsed<AttributeView> {
    match spec_u2(d, p) {
        Ok((ni, q1)) => match spec_u4(d, q1) {
            Ok((len, q2)) => match spec_bytes(d, q2, len as int) {
                Ok((b, q3)) => Ok(
                    (AttributeView { name: or_empty(spec_resolve(pool, ni as int)), data: b }, q3),
                ),
                Err(e) => Err(e),
            },
            Err(e) => Err(e),
        },
        Err(e) => Err(e),
    }
}

/// One attribute, as a list item for `repeat`.
pub open spec fn attr_item(d: Seq<u8>, pool: Seq<ConstView>) -> spec_fn(int) -> Parsed<AttributeView> {
    |q: int| spec_attr(d, pool, q)
}

/// An attribute list at `p`: a 16-bit count, then that many attributes.
pub open spec fn spec_attrs(d: Seq<u8>, pool: Seq<ConstView>, p: int) -> Parsed<Seq<AttributeView>> {
    match spec_u2(d, p) {
        Ok((n, q)) => repeat(attr_item(d, pool), q, n as nat),
        Err(e) => Err(e),
    }
}

/// One field or method at `p`: flags, name index, descriptor index, then its
/// attribute list.
pub open spec fn spec_field(d: Seq<u8>, pool: Seq<ConstView>, p: int) -> Parsed<FieldView> {
    match spec_u2(d, p) {
        Ok((flags, q1)) => match spec_u2(d, q1) {
            Ok((ni, q2)) => match spec_u2(d, q2) {
                Ok((di, q3)) => match spec_attrs(d, pool, q3) {
                    Ok((attrs, q4)) => Ok(
                        (
                            FieldView {
                                flags,
                                name: or_empty(spec_resolve(pool, ni as int)),
                                descriptor: or_empty(spec_resolve(pool, di as int)),
                                attributes: attrs,
                            },
                            q4,
                        ),
                    ),
                    Err(e) => Err(e),
                },
                Err(e) => Err(e),
            },
            Err(e) => Err(e),
        },
        Err(e) => Err(e),
    }
}

/// One field or method, as a list item for `repeat`.
pub open spec fn field_item(d: Seq<u8>, pool: Seq<ConstView>) -> spec_fn(int) -> Parsed<FieldView> {
    |q: int| spec_field(d, pool, q)
}

/// A field or method list at `p`: a 16-bit count, then that many entries.
pub open spec fn spec_fields(d: Seq<u8>, pool: Seq<ConstView>, p: int) -> Parsed<Seq<FieldView>> {
    match spec_u2(d, p) {
        Ok((n, q)) => repeat(field_item(d, pool), q, n as nat),
        Err(e) => Err(e),
    }
}

/// One interface index at `p`, resolved.
pub open spec fn index_item(d: Seq<u8>, pool: Seq<ConstView>) -> spec_fn(int) -> Parsed<
    Option<Seq<char>>,
> {
    |q: int|
        match spec_u2(d, q) {
            Ok((i, q2)) => Ok((spec_resolve(pool, i as int), q2)),
            Err(e) => Err(e),
        }
}

/// The interface list at `p`: a 16-bit count, then that many indices; the
/// names that resolve, in order.
pub open spec fn spec_interfaces(d: Seq<u8>, pool: Seq<ConstView>, p: int) -> Parsed<Seq<Seq<char>>> {
    match spec_u2(d, p) {
        Ok((n, q)) => match repeat(index_item(d, pool), q, n as nat) {
            Ok((rs, q2)) => Ok((resolved_only(rs), q2)),
            Err(e) => Err(e),
        },
        Err(e) => Err(e),
    }
}

impl Loader {
    /// Reads an interface list, keeping the names that resolve.
    pub fn interfaces(&mut self, cp: &ConstPool) -> (r: Result<Vec<String>, VmError>)
        ensures
            final(self).data@ == old(self).data@,
            match spec_interfaces(old(self).data@, cp@, old(self).pos as int) {
                Ok((names, q)) => r is Ok && r->Ok_0@.map_values(|s: String| s@) == names
                    && final(self).pos == q,
                Err(e) => r == Err::<Vec<String>, VmError>(e),
            },
    {
        let ghost d = self.data@;
        let ghost pool = cp@;
        let n = match self.u2() {
            Ok(n) => n,
            Err(e) => return Err(e),
        };
        let ghost p0 = self.pos as int;
        let ghost mut rs: Seq<Option<Seq<char>>> = Seq::empty();
        let mut out: Vec<String> = Vec::new();
        let mut i: u16 = 0;
        assert(out@.map_values(|s: String| s@) =~= resolved_only(rs));
        while i < n
            invariant
                self.data@ == d,
                d == old(self).data@,
                pool == cp@,
                spec_u2(d, old(self).pos as int) == Ok::<(u16, int), VmError>((n, p0)),
                i <= n,
                repeat(index_item(d, pool), p0, i as nat) == Ok::<
                    (Seq<Option<Seq<char>>>, int),
                    VmError,
                >((rs, self.pos as int)),
                out@.map_values(|s: String| s@) == resolved_only(rs),
            decreases n - i,
        {
            let idx = match self.u2() {
                Ok(x) => x,
                Err(e) => {
                    proof {
                        lemma_repeat_err(index_item(d, pool), p0, (i + 1) as nat, n as nat);
                    }
                    return Err(e);
                },
            };
            let res = cp.resolve(idx as usize);
            let ghost before = out@;
            proof {
                assert(rs.push(opt_text(res)).drop_last() =~= rs);
            }
            match res {
                Some(s) => {
                    out.push(s);
                    assert(out@.map_values(|s: String| s@) =~= before.map_values(|s: String| s@).push(
                        s@,
                    ));
                },
                None => {},
            }
            proof {
                rs = rs.push(opt_text(res));
            }
            i = i + 1;
        }
        Ok(out)
    }

    /// Reads an attribute list; a name that does not resolve becomes empty.
    pub fn attrs(&mut self, cp: &ConstPool) -> (r: Result<Vec<Attribute>, VmError>)
        ensures
            final(self).data@ == old(self).data@,
            match spec_attrs(old(self).data@, cp@, old(self).pos as int) {
                Ok((attrs, q)) => r is Ok && r->Ok_0@.map_values(|a: Attribute| a@) == attrs
                    && final(self).pos == q,
                Err(e) => r == Err::<Vec<Attribute>, VmError>(e),
            },
    {
        let ghost d = self.data@;
        let ghost pool = cp@;
        let n = match self.u2() {
            Ok(n) => n,
            Err(e) => return Err(e),
        };
        let ghost p0 = self.pos as int;
        let mut out: Vec<Attribute> = Vec::new();
        let mut i: u16 = 0;
        assert(out@.map_values(|a: Attribute| a@) =~= Seq::empty());
        while i < n
            invariant
                self.data@ == d,
                d == old(self).data@,
                pool == cp@,
                spec_u2(d, old(self).pos as int) == Ok::<(u16, int), VmError>((n, p0)),
                i <= n,
                repeat(attr_item(d, pool), p0, i as nat) == Ok::<(Seq<AttributeView>, int), VmError>(
                    (out@.map_values(|a: Attribute| a@), self.pos as int),
                ),
            decreases n - i,
        {
            let name_index = match self.u2() {
                Ok(x) => x,
                Err(e) => {
                    proof {
                        lemma_repeat_err(attr_item(d, pool), p0, (i + 1) as nat, n as nat);
                    }
                    return Err(e);
                },
            };
            let size = match self.u4() {
                Ok(x) => x,
                Err(e) => {
                    proof {
                        lemma_repeat_err(attr_item(d, pool), p0, (i + 1) as nat, n as nat);
                    }
                    return Err(e);
                },
            };
            let data = match self.bytes(size as usize) {
                Ok(x) => x,
                Err(e) => {
                    proof {
                        lemma_repeat_err(attr_item(d, pool), p0, (i + 1) as nat, n as nat);
                    }
                    return Err(e);
                },
            };
            let name = match cp.resolve(name_index as usize) {
                Some(s) => s,
                None => String::new(),
            };
            let a = Attribute { name, data };
            let ghost before = out@;
            out.push(a);
            assert(out@.map_values(|a: Attribute| a@) =~= before.map_values(|a: Attribute| a@).push(
                a@,
            ));
            i = i + 1;
        }
        Ok(out)
    }

    /// Reads a field or method list; names that do not resolve become empty.
    pub fn fields(&mut self, cp: &ConstPool) -> (r: Result<Vec<Field>, VmError>)
        ensures
            final(self).data@ == old(self).data@,
            match spec_fields(old(self).data@, cp@, old(self).pos as int) {
                Ok((fs, q)) => r is Ok && r->Ok_0@.map_values(|f: Field| f@) == fs
                    && final(self).pos == q,
                Err(e) => r == Err::<Vec<Field>, VmError>(e),
            },
    {
        let ghost d = self.data@;
        let ghost pool = cp@;
        let n = match self.u2() {
            Ok(n) => n,
            Err(e) => return Err(e),
        };
        let ghost p0 = self.pos as int;
        let mut out: Vec<Field> = Vec::new();
        let mut i: u16 = 0;
        assert(out@.map_values(|f: Field| f@) =~= Seq::empty());
        while i < n
            invariant
                self.data@ == d,
                d == old(self).data@,
                pool == cp@,
                spec_u2(d, old(self).pos as int) == Ok::<(u16, int), VmError>((n, p0)),
                i <= n,
                repeat(field_item(d, pool), p0, i as nat) == Ok::<(Seq<FieldView>, int), VmError>(
                    (out@.map_values(|f: Field| f@), self.pos as int),
                ),
            decreases n - i,
        {
            let flags = match self.u2() {
                Ok(x) => x,
                Err(e) => {
                    proof {
                        lemma_repeat_err(field_item(d, pool), p0, (i + 1) as nat, n as nat);
                    }
                    return Err(e);
                },
            };
            let name_index = match self.u2() {
                Ok(x) => x,
                Err(e) => {
                    proof {
                        lemma_repeat_err(field_item(d, pool), p0, (i + 1) as nat, n as nat);
                    }
                    return Err(e);
                },
            };
            let desc_index = match self.u2() {
                Ok(x) => x,
                Err(e) => {
                    proof {
                        lemma_repeat_err(field_item(d, pool), p0, (i + 1) as nat, n as nat);
                    }
                    return Err(e);
                },
            };
            let attributes = match self.attrs(cp) {
                Ok(x) => x,
                Err(e) => {
                    proof {
                        lemma_repeat_err(field_item(d, pool), p0, (i + 1) as nat, n as nat);
                    }
                    return Err(e);
                },
            };
            let name = match cp.resolve(name_index as usize) {
                Some(s) => s,
                None => String::new(),
            };
            let descriptor = match cp.resolve(desc_index as usize) {
                Some(s) => s,
                None => String::new(),
            };
            let f = Field { flags, name, descriptor, attributes };
            let ghost before = out@;
            out.push(f);
            assert(out@.map_values(|f: Field| f@) =~= before.map_values(|f: Field| f@).push(f@));
            i = i + 1;
        }
        Ok(out)
    }
}

/// The signature that opens every class file.
pub const MAGIC: u32 = 0xCAFEBABE;

/// The 8-byte header at the start: the signature, then two version numbers;
/// gives the position after it.
pub open spec fn spec_header(d: Seq<u8>) -> Parsed<()> {
    match spec_u4(d, 0) {
        Ok((magic, p1)) => if magic != MAGIC {
            Err(VmError::MagicMismatch)
        } else {
            match spec_u2(d, p1) {
                Ok((_minor, p2)) => match spec_u2(d, p2) {
                    Ok((_major, p3)) => Ok(((), p3)),
                    Err(e) => Err(e),
                },
                Err(e) => Err(e),
            }
        },
        Err(e) => Err(e),
    }
}

/// Everything after the constant pool, read at `p` against `pool`.
pub open spec fn spec_class_body(d: Seq<u8>, pool: Seq<ConstView>, p: int) -> Result<
    ClassView,
    VmError,
> {
    match spec_u2(d, p) {
        Ok((flags, p1)) => match spec_u2(d, p1) {
            Ok((this_index, p2)) => match spec_u2(d, p2) {
                Ok((super_index, p3)) => match spec_interfaces(d, pool, p3) {
                    Ok((interfaces, p4)) => match spec_fields(d, pool, p4) {
                        Ok((fields, p5)) => match spec_fields(d, pool, p5) {
                            Ok((methods, p6)) => match spec_attrs(d, pool, p6) {
                                Ok((attributes, _)) => Ok(
                                    ClassView {
                                        const_pool: pool,
                                        name: or_empty(spec_class_name(pool, this_index as int)),
                                        super_: or_empty(spec_class_name(pool, super_index as int)),
                                        flags,
                                        interfaces,
                                        fields,
                                        methods,
                                        attributes,
                                    },
                                ),
                                Err(e) => Err(e),
                            },
                            Err(e) => Err(e),
                        },
                        Err(e) => Err(e),
                    },
                    Err(e) => Err(e),
                },
                Err(e) => Err(e),
            },
            Err(e) => Err(e),
        },
        Err(e) => Err(e),
    }
}

/// The class that the bytes `d` describe, or the first error met reading it.
pub open spec fn spec_class(d: Seq<u8>) -> Result<ClassView, VmError> {
    match spec_header(d) {
        Ok((_, p)) => match spec_pool(d, p) {
            Ok((pool, q)) => spec_class_body(d, pool, q),
            Err(e) => Err(e),
        },
        Err(e) => Err(e),
    }
}

impl Class {
    /// Loads a class from its bytes.
    pub fn new(data: Vec<u8>) -> (r: Result<Class, VmError>)
        ensures
            match spec_class(data@) {
                Ok(c) => r is Ok && r->Ok_0@ == c,
                Err(e) => r == Err::<Class, VmError>(e),
            },
    {
        let mut loader = Loader::new(data);
        let magic = match loader.u4() {
            Ok(x) => x,
            Err(e) => return Err(e),
        };
        if magic != MAGIC {
            return Err(VmError::MagicMismatch);
        }
        match loader.u2() {
            Ok(_) => {},
            Err(e) => return Err(e),
        }
        match loader.u2() {
            Ok(_) => {},
            Err(e) => return Err(e),
        }
        let const_pool = match loader.cpinfo() {
            Ok(x) => x,
            Err(e) => return Err(e),
        };
        let flags = match loader.u2() {
            Ok(x) => x,
            Err(e) => return Err(e),
        };
        let this_index = match loader.u2() {
            Ok(x) => x,
            Err(e) => return Err(e),
        };
        let super_index = match loader.u2() {
            Ok(x) => x,
            Err(e) => return Err(e),
        };
        let interfaces = match loader.interfaces(&const_pool) {
            Ok(x) => x,
            Err(e) => return Err(e),
        };
        let fields = match loader.fields(&const_pool) {
            Ok(x) => x,
            Err(e) => return Err(e),
        };
        let methods = match loader.fields(&const_pool) {
            Ok(x) => x,
            Err(e) => return Err(e),
        };
        let attributes = match loader.attrs(&const_pool) {
            Ok(x) => x,
            Err(e) => return Err(e),
        };
        let name = match const_pool.class_name(this_index as usize) {
            Some(s) => s,
            None => String::new(),
        };
        let super_ = match const_pool.class_name(super_index as usize) {
            Some(s) => s,
            None => String::new(),
        };
        Ok(Class { const_pool, name, super_, flags, interfaces, fields, methods, attributes })
    }
}

} // verus!
