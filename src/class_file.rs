use vstd::prelude::*;

use crate::attribute::{parse_attributes, read_attributes, RawAttribute};
use crate::bytes::{be16, be32, read_u16, read_u32};
use crate::constant_pool::{pool_class, pool_utf8, pool_wf, Constant, ConstantPool, ConstantPoolIndex};
use crate::error::{JomError, JomResult};
use crate::field::{field_decoded, field_error, parse_members, read_members, FieldInfo, RawMember, RawMemberInfo};
use crate::method::{method_decoded, method_error, MethodInfo};
use crate::raw_pool::{constant_pool_parser, parse_raw_pool, RawEntry};
use crate::resolve::{process_cp, resolve_pool};

verus! {

/// A class file as it stands in the bytes, before any index is followed.
pub struct RawClass {
    pub minor: u16,
    pub major: u16,
    pub pool: Seq<RawEntry>,
    pub access_flags: u16,
    pub this_class: u16,
    pub super_class: u16,
    pub interfaces: Seq<u16>,
    pub fields: Seq<RawMember>,
    pub methods: Seq<RawMember>,
    pub has_attribute_table: bool,
    pub attributes: Seq<(u16, Seq<u8>)>,
}

pub open spec fn parse_tail(b: Seq<u8>, minor: u16, major: u16, pool: Seq<RawEntry>, p1: int) -> Result<RawClass, JomError> {
    let n = be16(b, p1 + 6) as int;
    let q = p1 + 8 + 2 * n;
    if p1 + 8 > b.len() || q + 2 > b.len() {
        Err(JomError::Malformed)
    } else {
        match parse_members(b, q + 2, be16(b, q) as int) {
            Err(e) => Err(e),
            Ok((fields, q2)) => if q2 + 2 > b.len() {
                Err(JomError::Malformed)
            } else {
                match parse_members(b, q2 + 2, be16(b, q2) as int) {
                    Err(e) => Err(e),
                    Ok((methods, q3)) => if q3 == b.len() {
                        Ok(RawClass {
                            minor,
                            major,
                            pool,
                            access_flags: be16(b, p1),
                            this_class: be16(b, p1 + 2),
                            super_class: be16(b, p1 + 4),
                            interfaces: Seq::new(n as nat, |i: int| be16(b, p1 + 8 + 2 * i)),
                            fields,
                            methods,
                            has_attribute_table: false,
                            attributes: Seq::empty(),
                        })
                    } else if q3 + 2 > b.len() {
                        Err(JomError::Malformed)
                    } else {
                        match parse_attributes(b, q3 + 2, be16(b, q3) as int) {
                            Err(e) => Err(e),
                            Ok((attributes, end)) => if end != b.len() {
                                Err(JomError::Malformed)
                            } else {
                                Ok(RawClass {
                                    minor,
                                    major,
                                    pool,
                                    access_flags: be16(b, p1),
                                    this_class: be16(b, p1 + 2),
                                    super_class: be16(b, p1 + 4),
                                    interfaces: Seq::new(n as nat, |i: int| be16(b, p1 + 8 + 2 * i)),
                                    fields,
                                    methods,
                                    has_attribute_table: true,
                                    attributes,
                                })
                            },
                        }
                    },
                }
            },
        }
    }
}

/// The layout of a whole class file: magic, versions, raw pool, flags,
/// class indices, interfaces, fields and methods; then either the end of
/// the bytes, or a table of class attributes and nothing after it.
pub open spec fn parse_class(b: Seq<u8>) -> Result<RawClass, JomError> {
    if b.len() < 8 || be32(b, 0) != 0xCAFE_BABEu32 {
        Err(JomError::Malformed)
    } else {
        match parse_raw_pool(b, 8) {
            Err(e) => Err(e),
            Ok((pool, p1)) => parse_tail(b, be16(b, 4), be16(b, 6), pool, p1),
        }
    }
}

pub open spec fn interfaces_error(p: Seq<Constant>, s: Seq<u16>, i: int) -> Option<JomError>
    decreases s.len() - i,
{
    if i < 0 || i >= s.len() {
        None
    } else {
        match pool_class(p, s[i]) {
            Err(e) => Some(e),
            Ok(_) => interfaces_error(p, s, i + 1),
        }
    }
}

pub open spec fn fields_error(p: Seq<Constant>, s: Seq<RawMember>, i: int) -> Option<JomError>
    decreases s.len() - i,
{
    if i < 0 || i >= s.len() {
        None
    } else {
        match field_error(p, s[i]) {
            Some(e) => Some(e),
            None => fields_error(p, s, i + 1),
        }
    }
}

pub open spec fn class_attrs_error(p: Seq<Constant>, s: Seq<(u16, Seq<u8>)>, i: int) -> Option<JomError>
    decreases s.len() - i,
{
    if i < 0 || i >= s.len() {
        None
    } else {
        match pool_utf8(p, s[i].0) {
            Err(e) => Some(e),
            Ok(_) => class_attrs_error(p, s, i + 1),
        }
    }
}

pub open spec fn methods_error(p: Seq<Constant>, s: Seq<RawMember>, i: int) -> Option<JomError>
    decreases s.len() - i,
{
    if i < 0 || i >= s.len() {
        None
    } else {
        match method_error(p, s[i]) {
            Some(e) => Some(e),
            None => methods_error(p, s, i + 1),
        }
    }
}

/// Why resolving a raw class against its resolved pool `p` fails, if it does:
/// the class, the superclass, the interfaces, the fields, the methods, then
/// the names of the class attributes.
pub open spec fn members_error(rc: RawClass, p: Seq<Constant>) -> Option<JomError> {
    match pool_class(p, rc.this_class) {
        Err(e) => Some(e),
        Ok(_) => match pool_class(p, rc.super_class) {
            Err(e) => Some(e),
            Ok(_) => match interfaces_error(p, rc.interfaces, 0) {
                Some(e) => Some(e),
                None => match fields_error(p, rc.fields, 0) {
                    Some(e) => Some(e),
                    None => match methods_error(p, rc.methods, 0) {
                        Some(e) => Some(e),
                        None => class_attrs_error(p, rc.attributes, 0),
                    },
                },
            },
        },
    }
}

/// Why decoding the class file `b` fails, if it does: its layout, then its
/// pool, then what refers into the pool.
pub open spec fn class_error(b: Seq<u8>) -> Option<JomError> {
    match parse_class(b) {
        Err(e) => Some(e),
        Ok(rc) => match resolve_pool(rc.pool) {
            Err(e) => Some(e),
            Ok(p) => members_error(rc, p),
        },
    }
}

/// A decoded class file.
pub struct ClassFile {
    pub minor: u16,
    pub major: u16,
    pub constant_pool: ConstantPool,
    pub access_flags: u16,
    pub this_class: String,
    pub super_class: String,
    pub interfaces: Vec<String>,
    pub fields: Vec<FieldInfo>,
    pub methods: Vec<MethodInfo>,
    /// Whether the file carries a table of class attributes after its methods.
    pub has_attribute_table: bool,
    pub attributes: Vec<ClassAttribute>,
}

/// An attribute of the class itself, kept as its name and opaque payload.
pub struct ClassAttribute {
    pub name: String,
    pub info: Vec<u8>,
}

/// `cf` is what the raw class `rc` decodes to, with `rc`'s pool resolved.
pub open spec fn class_decoded(rc: RawClass, cf: ClassFile) -> bool {
    &&& resolve_pool(rc.pool) == Ok::<Seq<Constant>, JomError>(cf.constant_pool@)
    &&& cf.minor == rc.minor
    &&& cf.major == rc.major
    &&& cf.access_flags == rc.access_flags
    &&& pool_class(cf.constant_pool@, rc.this_class) == Ok::<Seq<char>, JomError>(cf.this_class@)
    &&& pool_class(cf.constant_pool@, rc.super_class) == Ok::<Seq<char>, JomError>(cf.super_class@)
    &&& cf.interfaces@.len() == rc.interfaces.len()
    &&& forall|i: int| 0 <= i < rc.interfaces.len()
        ==> pool_class(cf.constant_pool@, rc.interfaces[i]) == Ok::<Seq<char>, JomError>((#[trigger] cf.interfaces@[i])@)
    &&& cf.fields@.len() == rc.fields.len()
    &&& forall|i: int| 0 <= i < rc.fields.len() ==> field_decoded(cf.constant_pool@, rc.fields[i], #[trigger] cf.fields@[i])
    &&& cf.methods@.len() == rc.methods.len()
    &&& forall|i: int| 0 <= i < rc.methods.len() ==> method_decoded(cf.constant_pool@, rc.methods[i], #[trigger] cf.methods@[i])
    &&& cf.has_attribute_table == rc.has_attribute_table
    &&& cf.attributes@.len() == rc.attributes.len()
    &&& forall|i: int| 0 <= i < rc.attributes.len() ==> pool_utf8(cf.constant_pool@, rc.attributes[i].0)
        == Ok::<Seq<char>, JomError>((#[trigger] cf.attributes@[i]).name@) && cf.attributes@[i].info@ == rc.attributes[i].1
}

impl ClassFile {
    /// Decodes a class file. On success the pool has the file's slot layout.
    pub fn read(bytes: &[u8]) -> (r: JomResult<ClassFile>)
        ensures
            r matches Ok(cf) ==> class_error(bytes@) is None && class_decoded(parse_class(bytes@)->Ok_0, cf)
                && pool_wf(cf.constant_pool@),
            r matches Err(e) ==> class_error(bytes@) == Some(e),
    {
        let len = bytes.len();
        match read_u32(bytes, 0) {
            Some(m) => {
                if m != 0xCAFE_BABEu32 || len < 8 {
                    return Err(JomError::Malformed);
                }
            },
            None => return Err(JomError::Malformed),
        }
        let minor = match read_u16(bytes, 4) {
            Some(v) => v,
            None => return Err(JomError::Malformed),
        };
        let major = match read_u16(bytes, 6) {
            Some(v) => v,
            None => return Err(JomError::Malformed),
        };
        let (raw, p1) = constant_pool_parser(bytes, 8)?;
        if len - p1 < 8 {
            return Err(JomError::Malformed);
        }
        let access_flags = match read_u16(bytes, p1) {
            Some(v) => v,
            None => return Err(JomError::Malformed),
        };
        let this_index = match read_u16(bytes, p1 + 2) {
            Some(v) => v,
            None => return Err(JomError::Malformed),
        };
        let super_index = match read_u16(bytes, p1 + 4) {
            Some(v) => v,
            None => return Err(JomError::Malformed),
        };
        let n = match read_u16(bytes, p1 + 6) {
            Some(v) => v as usize,
            None => return Err(JomError::Malformed),
        };
        if (len - p1 - 8) / 2 < n || len - p1 - 8 - 2 * n < 2 {
            proof {
                if (len - p1 - 8) / 2 >= n {
                    assert(2 * n <= len - p1 - 8) by (nonlinear_arith)
                        requires
                            (len - p1 - 8) / 2 >= n,
                            p1 + 8 <= len;
                } else {
                    assert(2 * n > len - p1 - 8) by (nonlinear_arith)
                        requires
                            (len - p1 - 8) / 2 < n,
                            p1 + 8 <= len;
                }
            }
            return Err(JomError::Malformed);
        }
        let q = p1 + 8 + 2 * n;
        let mut iface_index: Vec<u16> = Vec::new();
        let mut i: usize = 0;
        while i < n
            invariant
                i <= n,
                q == p1 + 8 + 2 * n,
                q + 2 <= len,
                len == bytes@.len(),
                iface_index@.len() == i,
                forall|j: int| 0 <= j < i ==> #[trigger] iface_index@[j] == be16(bytes@, p1 + 8 + 2 * j),
            decreases n - i,
        {
            let at = p1 + 8 + 2 * i;
            let v = match read_u16(bytes, at) {
                Some(v) => v,
                None => return Err(JomError::Malformed),
            };
            iface_index.push(v);
            i += 1;
        }
        let fc = match read_u16(bytes, q) {
            Some(v) => v,
            None => return Err(JomError::Malformed),
        };
        let (raw_fields, q2) = read_members(bytes, q + 2, fc)?;
        let mc = match read_u16(bytes, q2) {
            Some(v) => v,
            None => return Err(JomError::Malformed),
        };
        let (raw_methods, q3) = read_members(bytes, q2 + 2, mc)?;
        let has_attribute_table = q3 != len;
        let raw_attrs = if has_attribute_table {
            let ac = match read_u16(bytes, q3) {
                Some(v) => v,
                None => return Err(JomError::Malformed),
            };
            let (raw_attrs, end) = read_attributes(bytes, q3 + 2, ac)?;
            if end != len {
                return Err(JomError::Malformed);
            }
            raw_attrs
        } else {
            Vec::new()
        };
        let ghost rc = parse_class(bytes@)->Ok_0;
        assert(iface_index@ =~= rc.interfaces);
        assert(raw_fields@.map_values(|m: RawMemberInfo| m@) == rc.fields);
        let constant_pool = process_cp(raw.as_slice())?;
        let this_class = constant_pool.get_class(this_index)?;
        let super_class = constant_pool.get_class(super_index)?;
        let interfaces = decode_interfaces(&constant_pool, &iface_index)?;
        let fields = decode_fields(&constant_pool, &raw_fields)?;
        let methods = decode_methods(&constant_pool, &raw_methods)?;
        let attributes = decode_class_attrs(&constant_pool, &raw_attrs)?;
        Ok(ClassFile { minor, major, constant_pool, access_flags, this_class, super_class, interfaces, fields, methods, has_attribute_table, attributes })
    }
}


fn decode_interfaces(cp: &ConstantPool, idx: &Vec<u16>) -> (r: JomResult<Vec<String>>)
    ensures
        r matches Ok(v) ==> interfaces_error(cp@, idx@, 0) is None && v@.len() == idx@.len()
            && forall|j: int| 0 <= j < idx@.len() ==> pool_class(cp@, idx@[j]) == Ok::<Seq<char>, JomError>((#[trigger] v@[j])@),
        r matches Err(e) ==> interfaces_error(cp@, idx@, 0) == Some(e),
{
    let mut v: Vec<String> = Vec::new();
    let mut k: usize = 0;
    while k < idx.len()
        invariant
            k <= idx@.len(),
            v@.len() == k,
            interfaces_error(cp@, idx@, 0) == interfaces_error(cp@, idx@, k as int),
            forall|j: int| 0 <= j < k ==> pool_class(cp@, idx@[j]) == Ok::<Seq<char>, JomError>((#[trigger] v@[j])@),
        decreases idx@.len() - k,
    {
        v.push(cp.get_class(idx[k])?);
        k += 1;
    }
    Ok(v)
}

fn decode_fields(cp: &ConstantPool, raws: &Vec<RawMemberInfo>) -> (r: JomResult<Vec<FieldInfo>>)
    ensures
        r matches Ok(v) ==> fields_error(cp@, raws@.map_values(|m: RawMemberInfo| m@), 0) is None && v@.len() == raws@.len()
            && forall|j: int| 0 <= j < raws@.len() ==> field_decoded(cp@, raws@[j]@, #[trigger] v@[j]),
        r matches Err(e) ==> fields_error(cp@, raws@.map_values(|m: RawMemberInfo| m@), 0) == Some(e),
{
    let ghost s = raws@.map_values(|m: RawMemberInfo| m@);
    let mut v: Vec<FieldInfo> = Vec::new();
    let mut k: usize = 0;
    while k < raws.len()
        invariant
            k <= raws@.len(),
            s == raws@.map_values(|m: RawMemberInfo| m@),
            v@.len() == k,
            fields_error(cp@, s, 0) == fields_error(cp@, s, k as int),
            forall|j: int| 0 <= j < k ==> field_decoded(cp@, raws@[j]@, #[trigger] v@[j]),
        decreases raws@.len() - k,
    {
        v.push(raws[k].into_field_info(cp)?);
        k += 1;
    }
    Ok(v)
}

fn decode_class_attrs(cp: &ConstantPool, raws: &Vec<RawAttribute>) -> (r: JomResult<Vec<ClassAttribute>>)
    ensures
        r matches Ok(v) ==> class_attrs_error(cp@, raws@.map_values(|a: RawAttribute| a@), 0) is None && v@.len() == raws@.len()
            && forall|j: int| 0 <= j < raws@.len() ==> pool_utf8(cp@, raws@[j].name) == Ok::<Seq<char>, JomError>((#[trigger] v@[j]).name@)
                && v@[j].info@ == raws@[j].info@,
        r matches Err(e) ==> class_attrs_error(cp@, raws@.map_values(|a: RawAttribute| a@), 0) == Some(e),
{
    let ghost s = raws@.map_values(|a: RawAttribute| a@);
    let mut v: Vec<ClassAttribute> = Vec::new();
    let mut k: usize = 0;
    while k < raws.len()
        invariant
            k <= raws@.len(),
            s == raws@.map_values(|a: RawAttribute| a@),
            v@.len() == k,
            class_attrs_error(cp@, s, 0) == class_attrs_error(cp@, s, k as int),
            forall|j: int| 0 <= j < k ==> pool_utf8(cp@, raws@[j].name) == Ok::<Seq<char>, JomError>((#[trigger] v@[j]).name@)
                && v@[j].info@ == raws@[j].info@,
        decreases raws@.len() - k,
    {
        let name = cp.get_utf8(raws[k].name)?;
        let info = crate::attribute::copy_bytes(&raws[k].info);
        v.push(ClassAttribute { name, info });
        k += 1;
    }
    Ok(v)
}

fn decode_methods(cp: &ConstantPool, raws: &Vec<RawMemberInfo>) -> (r: JomResult<Vec<MethodInfo>>)
    ensures
        r matches Ok(v) ==> methods_error(cp@, raws@.map_values(|m: RawMemberInfo| m@), 0) is None && v@.len() == raws@.len()
            && forall|j: int| 0 <= j < raws@.len() ==> method_decoded(cp@, raws@[j]@, #[trigger] v@[j]),
        r matches Err(e) ==> methods_error(cp@, raws@.map_values(|m: RawMemberInfo| m@), 0) == Some(e),
{
    let ghost s = raws@.map_values(|m: RawMemberInfo| m@);
    let mut v: Vec<MethodInfo> = Vec::new();
    let mut k: usize = 0;
    while k < raws.len()
        invariant
            k <= raws@.len(),
            s == raws@.map_values(|m: RawMemberInfo| m@),
            v@.len() == k,
            methods_error(cp@, s, 0) == methods_error(cp@, s, k as int),
            forall|j: int| 0 <= j < k ==> method_decoded(cp@, raws@[j]@, #[trigger] v@[j]),
        decreases raws@.len() - k,
    {
        v.push(raws[k].into_method_info(cp)?);
        k += 1;
    }
    Ok(v)
}


pub open spec fn object_name() -> Seq<char> {
    "java/lang/Object"@
}

impl ClassFile {
    /// A class with no members that extends `java/lang/Object`; its pool
    /// holds just the two class names.
    pub fn new(this_class: String) -> (r: ClassFile)
        ensures
            r.constant_pool@ == seq![Constant::Unusable, Constant::Utf8(this_class@), Constant::Class(this_class@),
                Constant::Utf8(object_name()), Constant::Class(object_name())],
            pool_wf(r.constant_pool@),
            r.minor == 0,
            r.major == 63,
            r.access_flags == 0,
            r.this_class@ == this_class@,
            r.super_class@ == object_name(),
            r.interfaces@.len() == 0,
            r.fields@.len() == 0,
            r.methods@.len() == 0,
            r.attributes@.len() == 0,
            !r.has_attribute_table,
    {
        let super_class = "java/lang/Object".to_owned();
        let mut v: Vec<ConstantPoolIndex> = Vec::new();
        v.push(ConstantPoolIndex::Unusable);
        v.push(ConstantPoolIndex::Utf8(this_class.clone()));
        v.push(ConstantPoolIndex::Class(this_class.clone()));
        v.push(ConstantPoolIndex::Utf8(super_class.clone()));
        v.push(ConstantPoolIndex::Class(super_class.clone()));
        let constant_pool = ConstantPool::from_entries(v);
        assert(constant_pool@ =~= seq![Constant::Unusable, Constant::Utf8(this_class@), Constant::Class(this_class@),
            Constant::Utf8(object_name()), Constant::Class(object_name())]);
        assert(crate::constant_pool::pool_kinds(constant_pool@) =~= seq![crate::error::PoolKind::Unusable,
            crate::error::PoolKind::Utf8, crate::error::PoolKind::Class, crate::error::PoolKind::Utf8, crate::error::PoolKind::Class]);
        ClassFile {
            minor: 0,
            major: 63,
            constant_pool,
            access_flags: 0,
            this_class,
            super_class,
            interfaces: Vec::new(),
            fields: Vec::new(),
            methods: Vec::new(),
            has_attribute_table: false,
            attributes: Vec::new(),
        }
    }

    pub fn minor(&self) -> (r: u16)
        ensures
            r == self.minor,
    {
        self.minor
    }

    pub fn major(&self) -> (r: u16)
        ensures
            r == self.major,
    {
        self.major
    }

    pub fn constant_pool(&self) -> (r: &[ConstantPoolIndex])
        ensures
            r@.map_values(|e: ConstantPoolIndex| e@) == self.constant_pool@,
    {
        self.constant_pool.entries()
    }

    pub fn access_flags(&self) -> (r: u16)
        ensures
            r == self.access_flags,
    {
        self.access_flags
    }

    pub fn this_class(&self) -> (r: &str)
        ensures
            r@ == self.this_class@,
    {
        self.this_class.as_str()
    }

    pub fn super_class(&self) -> (r: &str)
        ensures
            r@ == self.super_class@,
    {
        self.super_class.as_str()
    }

    pub fn interfaces(&self) -> (r: &[String])
        ensures
            r@ == self.interfaces@,
    {
        self.interfaces.as_slice()
    }

    pub fn fields(&self) -> (r: &[FieldInfo])
        ensures
            r@ == self.fields@,
    {
        self.fields.as_slice()
    }

    pub fn methods(&self) -> (r: &[MethodInfo])
        ensures
            r@ == self.methods@,
    {
        self.methods.as_slice()
    }
}


/// Decodes a class file: the single read entry point.
pub fn decode(bytes: &[u8]) -> (r: JomResult<ClassFile>)
    ensures
        r matches Ok(cf) ==> class_error(bytes@) is None && class_decoded(parse_class(bytes@)->Ok_0, cf)
            && pool_wf(cf.constant_pool@),
        r matches Err(e) ==> class_error(bytes@) == Some(e),
{
    ClassFile::read(bytes)
}

} // verus!
