use vstd::prelude::*;

use crate::bytes::{be16, be32, read_u16, read_u32, slice_to_vec};
use crate::constant_pool::{pool_get, pool_utf8, Constant, ConstantPool, ConstantPoolIndex};
use crate::error::{Expected, JomError, JomResult};

verus! {

/// An attribute as it stands in the file: a name index and an opaque payload.
pub struct RawAttribute {
    pub name: u16,
    pub info: Vec<u8>,
}

/// Field attributes are read as any other attribute record.
pub type RawFieldAttribute = RawAttribute;

/// The attribute record at `pos`: name index, payload, and the position after it.
pub open spec fn parse_attribute(b: Seq<u8>, pos: int) -> Result<(u16, Seq<u8>, int), JomError> {
    if 0 <= pos && pos + 6 <= b.len() && pos + 6 + be32(b, pos + 2) <= b.len() {
        let end = pos + 6 + be32(b, pos + 2);
        Ok((be16(b, pos), b.subrange(pos + 6, end), end))
    } else {
        Err(JomError::Malformed)
    }
}

impl RawAttribute {
    /// Reads the attribute record at `pos`; returns it with the position after it.
    pub fn read(b: &[u8], pos: usize) -> (r: JomResult<(RawAttribute, usize)>)
        ensures
            r matches Ok((a, end)) ==> parse_attribute(b@, pos as int) == Ok::<(u16, Seq<u8>, int), JomError>((a.name, a.info@, end as int)),
            r matches Err(e) ==> parse_attribute(b@, pos as int) == Err::<(u16, Seq<u8>, int), JomError>(e),
    {
        let len = b.len();
        let name = match read_u16(b, pos) {
            Some(v) => v,
            None => return Err(JomError::Malformed),
        };
        let n = match read_u32(b, pos + 2) {
            Some(v) => v as usize,
            None => return Err(JomError::Malformed),
        };
        if len - (pos + 6) < n {
            return Err(JomError::Malformed);
        }
        let info = slice_to_vec(b, pos + 6, pos + 6 + n);
        Ok((RawAttribute { name, info }, pos + 6 + n))
    }
}

/// A field's constant value. `Float` and `Double` hold their IEEE 754 bits.
pub enum ConstantValue {
    Integer(i32),
    Float(u32),
    Long(i64),
    Double(u64),
    String(String),
}

impl View for ConstantValue {
    type V = Constant;

    open spec fn view(&self) -> Constant {
        match self {
            ConstantValue::Integer(v) => Constant::Integer(*v),
            ConstantValue::Float(v) => Constant::Float(*v),
            ConstantValue::Long(v) => Constant::Long(*v),
            ConstantValue::Double(v) => Constant::Double(*v),
            ConstantValue::String(s) => Constant::String(s@),
        }
    }
}

/// Entries a `ConstantValue` attribute may point at.
pub open spec fn is_loadable(c: Constant) -> bool {
    c is Integer || c is Float || c is Long || c is Double || c is String
}

impl ConstantValue {
    pub fn from_cp_index(c: ConstantPoolIndex) -> (r: JomResult<ConstantValue>)
        ensures
            r is Ok <==> is_loadable(c@),
            r matches Ok(v) ==> v@ == c@,
            r matches Err(e) ==> e == JomError::ConstantPoolIndexError(Expected::Loadable, crate::constant_pool::constant_kind(c@)),
    {
        match c {
            ConstantPoolIndex::Integer(v) => Ok(ConstantValue::Integer(v)),
            ConstantPoolIndex::Float(v) => Ok(ConstantValue::Float(v)),
            ConstantPoolIndex::Long(v) => Ok(ConstantValue::Long(v)),
            ConstantPoolIndex::Double(v) => Ok(ConstantValue::Double(v)),
            ConstantPoolIndex::String(s) => Ok(ConstantValue::String(s)),
            x => Err(JomError::ConstantPoolIndexError(Expected::Loadable, x.kind())),
        }
    }

    pub fn to_cp_index(&self) -> (r: ConstantPoolIndex)
        ensures
            r@ == self@,
    {
        match self {
            ConstantValue::Integer(v) => ConstantPoolIndex::Integer(*v),
            ConstantValue::Float(v) => ConstantPoolIndex::Float(*v),
            ConstantValue::Long(v) => ConstantPoolIndex::Long(*v),
            ConstantValue::Double(v) => ConstantPoolIndex::Double(*v),
            ConstantValue::String(s) => ConstantPoolIndex::String(s.clone()),
        }
    }
}

/// An attribute of a field.
pub enum FieldAttribute {
    ConstantValue(ConstantValue),
    Synthetic,
    Deprecated,
    Signature(String),
    Unknown(String, Vec<u8>),
}

/// The pool entry a two-byte payload points at.
pub open spec fn payload_entry(p: Seq<Constant>, info: Seq<u8>) -> Result<Constant, JomError> {
    if info.len() == 2 {
        pool_get(p, be16(info, 0))
    } else {
        Err(JomError::Malformed)
    }
}

/// The text a two-byte payload points at.
pub open spec fn payload_utf8(p: Seq<Constant>, info: Seq<u8>) -> Result<Seq<char>, JomError> {
    if info.len() == 2 {
        pool_utf8(p, be16(info, 0))
    } else {
        Err(JomError::Malformed)
    }
}

/// The error decoding a field attribute named `name` with payload `info` fails with, if any.
pub open spec fn field_attr_error(p: Seq<Constant>, name: Seq<char>, info: Seq<u8>) -> Option<JomError> {
    if name == "ConstantValue"@ {
        match payload_entry(p, info) {
            Ok(c) => if is_loadable(c) {
                None
            } else {
                Some(JomError::ConstantPoolIndexError(Expected::Loadable, crate::constant_pool::constant_kind(c)))
            },
            Err(e) => Some(e),
        }
    } else if name == "Synthetic"@ || name == "Deprecated"@ {
        if info.len() == 0 {
            None
        } else {
            Some(JomError::Malformed)
        }
    } else if name == "Signature"@ {
        match payload_utf8(p, info) {
            Ok(_) => None,
            Err(e) => Some(e),
        }
    } else {
        None
    }
}

/// `a` is what a field attribute named `name` with payload `info` decodes to.
pub open spec fn field_attr_decoded(p: Seq<Constant>, name: Seq<char>, info: Seq<u8>, a: FieldAttribute) -> bool {
    if name == "ConstantValue"@ {
        a matches FieldAttribute::ConstantValue(v) && payload_entry(p, info) == Ok::<Constant, JomError>(v@)
    } else if name == "Synthetic"@ {
        a is Synthetic
    } else if name == "Deprecated"@ {
        a is Deprecated
    } else if name == "Signature"@ {
        a matches FieldAttribute::Signature(s) && payload_utf8(p, info) == Ok::<Seq<char>, JomError>(s@)
    } else {
        a matches FieldAttribute::Unknown(n, b) && n@ == name && b@ == info
    }
}

/// Whether `s` holds the text `lit`.
pub fn is_named(s: &String, lit: &str) -> (r: bool)
    ensures
        r == (s@ == lit@),
{
    *s == lit.to_owned()
}

fn read_payload_index(info: &Vec<u8>) -> (r: JomResult<u16>)
    ensures
        r matches Ok(i) ==> info@.len() == 2 && i == be16(info@, 0),
        r matches Err(e) ==> info@.len() != 2 && e == JomError::Malformed,
{
    if info.len() != 2 {
        return Err(JomError::Malformed);
    }
    match read_u16(info.as_slice(), 0) {
        Some(i) => Ok(i),
        None => Err(JomError::Malformed),
    }
}

fn payload_utf8_exec(info: &Vec<u8>, cp: &ConstantPool) -> (r: JomResult<String>)
    ensures
        r matches Ok(s) ==> payload_utf8(cp@, info@) == Ok::<Seq<char>, JomError>(s@),
        r matches Err(e) ==> payload_utf8(cp@, info@) == Err::<Seq<char>, JomError>(e),
{
    let i = read_payload_index(info)?;
    cp.get_utf8(i)
}

impl RawAttribute {
    /// Decodes the attribute as one of a field's.
    pub fn into_field_attr(&self, cp: &ConstantPool) -> (r: JomResult<FieldAttribute>)
        ensures
            r matches Ok(a) ==> pool_utf8(cp@, self.name) is Ok
                && field_attr_error(cp@, pool_utf8(cp@, self.name)->Ok_0, self.info@) is None
                && field_attr_decoded(cp@, pool_utf8(cp@, self.name)->Ok_0, self.info@, a),
            r matches Err(e) ==> match pool_utf8(cp@, self.name) {
                Ok(n) => field_attr_error(cp@, n, self.info@) == Some(e),
                Err(x) => x == e,
            },
    {
        let name = cp.get_utf8(self.name)?;
        if is_named(&name, "ConstantValue") {
            let i = read_payload_index(&self.info)?;
            let c = cp.get(i)?;
            Ok(FieldAttribute::ConstantValue(ConstantValue::from_cp_index(c)?))
        } else if is_named(&name, "Synthetic") || is_named(&name, "Deprecated") {
            if self.info.len() != 0 {
                return Err(JomError::Malformed);
            }
            if is_named(&name, "Synthetic") {
                Ok(FieldAttribute::Synthetic)
            } else {
                Ok(FieldAttribute::Deprecated)
            }
        } else if is_named(&name, "Signature") {
            Ok(FieldAttribute::Signature(payload_utf8_exec(&self.info, cp)?))
        } else {
            Ok(FieldAttribute::Unknown(name, copy_bytes(&self.info)))
        }
    }
}


/// One row of a `LineNumberTable`.
#[derive(Clone, Copy, Debug, PartialEq, Eq, Structural)]
pub struct LineNumberTableIndex {
    pub start_pc: u16,
    pub line_number: u16,
}

/// One row of a `LocalVariableTable` or a `LocalVariableTypeTable`.
pub struct LocalVariableTableIndex {
    pub start_pc: u16,
    pub length: u16,
    pub name: String,
    pub descriptor: String,
    pub index: u16,
}

/// Rows of a `LocalVariableTypeTable` have the same shape, with a signature as descriptor.
pub type LocalVariableTypeTableIndex = LocalVariableTableIndex;

/// An attribute of a code body.
pub enum CodeAttribute {
    LineNumberTable(Vec<LineNumberTableIndex>),
    LocalVariableTable(Vec<LocalVariableTableIndex>),
    LocalVariableTypeTable(Vec<LocalVariableTypeTableIndex>),
    Unknown(String, Vec<u8>),
}

/// A table payload: a count, then that many rows of `width` bytes, and nothing after.
pub open spec fn table_shape_ok(info: Seq<u8>, width: int) -> bool {
    info.len() >= 2 && info.len() == 2 + width * be16(info, 0)
}

/// `t` holds the rows of the `LineNumberTable` payload `info`.
pub open spec fn line_table_decoded(info: Seq<u8>, t: Seq<LineNumberTableIndex>) -> bool {
    &&& table_shape_ok(info, 4)
    &&& t.len() == be16(info, 0)
    &&& forall|i: int| 0 <= i < t.len() ==> (#[trigger] t[i]).start_pc == be16(info, 2 + 4 * i)
        && t[i].line_number == be16(info, 4 + 4 * i)
}

/// Name and descriptor of row `i` of a local variable table payload.
pub open spec fn local_var_names(p: Seq<Constant>, info: Seq<u8>, i: int) -> Result<(Seq<char>, Seq<char>), JomError> {
    match pool_utf8(p, be16(info, 6 + 10 * i)) {
        Ok(n) => match pool_utf8(p, be16(info, 8 + 10 * i)) {
            Ok(d) => Ok((n, d)),
            Err(e) => Err(e),
        },
        Err(e) => Err(e),
    }
}

/// The first error among rows `i` to `count - 1`.
pub open spec fn local_rows_error(p: Seq<Constant>, info: Seq<u8>, i: int, count: int) -> Option<JomError>
    decreases count - i,
{
    if i < 0 || i >= count {
        None
    } else {
        match local_var_names(p, info, i) {
            Err(e) => Some(e),
            Ok(_) => local_rows_error(p, info, i + 1, count),
        }
    }
}

pub open spec fn local_table_error(p: Seq<Constant>, info: Seq<u8>) -> Option<JomError> {
    if table_shape_ok(info, 10) {
        local_rows_error(p, info, 0, be16(info, 0) as int)
    } else {
        Some(JomError::Malformed)
    }
}

/// `t` holds the rows of the local variable table payload `info`.
pub open spec fn local_table_decoded(p: Seq<Constant>, info: Seq<u8>, t: Seq<LocalVariableTableIndex>) -> bool {
    &&& table_shape_ok(info, 10)
    &&& t.len() == be16(info, 0)
    &&& forall|i: int| 0 <= i < t.len() ==> (#[trigger] t[i]).start_pc == be16(info, 2 + 10 * i)
        && t[i].length == be16(info, 4 + 10 * i)
        && local_var_names(p, info, i) == Ok::<(Seq<char>, Seq<char>), JomError>((t[i].name@, t[i].descriptor@))
        && t[i].index == be16(info, 10 + 10 * i)
}

/// The error decoding a code attribute named `name` with payload `info` fails with, if any.
pub open spec fn code_attr_error(p: Seq<Constant>, name: Seq<char>, info: Seq<u8>) -> Option<JomError> {
    if name == "LineNumberTable"@ {
        if table_shape_ok(info, 4) {
            None
        } else {
            Some(JomError::Malformed)
        }
    } else if name == "LocalVariableTable"@ || name == "LocalVariableTypeTable"@ {
        local_table_error(p, info)
    } else {
        None
    }
}

/// `a` is what a code attribute named `name` with payload `info` decodes to.
pub open spec fn code_attr_decoded(p: Seq<Constant>, name: Seq<char>, info: Seq<u8>, a: CodeAttribute) -> bool {
    if name == "LineNumberTable"@ {
        a matches CodeAttribute::LineNumberTable(t) && line_table_decoded(info, t@)
    } else if name == "LocalVariableTable"@ {
        a matches CodeAttribute::LocalVariableTable(t) && local_table_decoded(p, info, t@)
    } else if name == "LocalVariableTypeTable"@ {
        a matches CodeAttribute::LocalVariableTypeTable(t) && local_table_decoded(p, info, t@)
    } else {
        a matches CodeAttribute::Unknown(n, b) && n@ == name && b@ == info
    }
}

fn table_count(info: &Vec<u8>, width: usize) -> (r: JomResult<usize>)
    requires
        width == 4 || width == 10,
    ensures
        r matches Ok(n) ==> table_shape_ok(info@, width as int) && n == be16(info@, 0),
        r matches Err(e) ==> !table_shape_ok(info@, width as int) && e == JomError::Malformed,
{
    let n = match read_u16(info.as_slice(), 0) {
        Some(n) => n as usize,
        None => return Err(JomError::Malformed),
    };
    if (info.len() - 2) / width != n || (info.len() - 2) % width != 0 {
        return Err(JomError::Malformed);
    }
    Ok(n)
}

fn read_line_table(info: &Vec<u8>) -> (r: JomResult<Vec<LineNumberTableIndex>>)
    ensures
        r matches Ok(t) ==> line_table_decoded(info@, t@),
        r matches Err(e) ==> !table_shape_ok(info@, 4) && e == JomError::Malformed,
{
    let n = table_count(info, 4)?;
    let mut t: Vec<LineNumberTableIndex> = Vec::new();
    let mut i: usize = 0;
    while i < n
        invariant
            i <= n,
            n == be16(info@, 0),
            table_shape_ok(info@, 4),
            t@.len() == i,
            forall|j: int| 0 <= j < i ==> (#[trigger] t@[j]).start_pc == be16(info@, 2 + 4 * j)
                && t@[j].line_number == be16(info@, 4 + 4 * j),
        decreases n - i,
    {
        let at = 2 + 4 * i;
        let start_pc = match read_u16(info.as_slice(), at) {
            Some(v) => v,
            None => return Err(JomError::Malformed),
        };
        let line_number = match read_u16(info.as_slice(), at + 2) {
            Some(v) => v,
            None => return Err(JomError::Malformed),
        };
        t.push(LineNumberTableIndex { start_pc, line_number });
        i += 1;
    }
    Ok(t)
}

fn read_local_table(info: &Vec<u8>, cp: &ConstantPool) -> (r: JomResult<Vec<LocalVariableTableIndex>>)
    ensures
        r matches Ok(t) ==> local_table_error(cp@, info@) is None && local_table_decoded(cp@, info@, t@),
        r matches Err(e) ==> local_table_error(cp@, info@) == Some(e),
{
    let n = table_count(info, 10)?;
    let mut t: Vec<LocalVariableTableIndex> = Vec::new();
    let mut i: usize = 0;
    while i < n
        invariant
            i <= n,
            n == be16(info@, 0),
            table_shape_ok(info@, 10),
            t@.len() == i,
            local_rows_error(cp@, info@, 0, n as int) == local_rows_error(cp@, info@, i as int, n as int),
            forall|j: int| 0 <= j < i ==> (#[trigger] t@[j]).start_pc == be16(info@, 2 + 10 * j)
                && t@[j].length == be16(info@, 4 + 10 * j)
                && local_var_names(cp@, info@, j) == Ok::<(Seq<char>, Seq<char>), JomError>((t@[j].name@, t@[j].descriptor@))
                && t@[j].index == be16(info@, 10 + 10 * j),
        decreases n - i,
    {
        let at = 2 + 10 * i;
        let b = info.as_slice();
        let start_pc = match read_u16(b, at) {
            Some(v) => v,
            None => return Err(JomError::Malformed),
        };
        let length = match read_u16(b, at + 2) {
            Some(v) => v,
            None => return Err(JomError::Malformed),
        };
        let name_index = match read_u16(b, at + 4) {
            Some(v) => v,
            None => return Err(JomError::Malformed),
        };
        let descriptor_index = match read_u16(b, at + 6) {
            Some(v) => v,
            None => return Err(JomError::Malformed),
        };
        let index = match read_u16(b, at + 8) {
            Some(v) => v,
            None => return Err(JomError::Malformed),
        };
        let name = cp.get_utf8(name_index)?;
        let descriptor = cp.get_utf8(descriptor_index)?;
        t.push(LocalVariableTableIndex { start_pc, length, name, descriptor, index });
        i += 1;
    }
    Ok(t)
}

impl RawAttribute {
    /// Decodes the attribute as one of a code body's.
    pub fn into_code_attr(&self, cp: &ConstantPool) -> (r: JomResult<CodeAttribute>)
        ensures
            r matches Ok(a) ==> pool_utf8(cp@, self.name) is Ok
                && code_attr_error(cp@, pool_utf8(cp@, self.name)->Ok_0, self.info@) is None
                && code_attr_decoded(cp@, pool_utf8(cp@, self.name)->Ok_0, self.info@, a),
            r matches Err(e) ==> match pool_utf8(cp@, self.name) {
                Ok(n) => code_attr_error(cp@, n, self.info@) == Some(e),
                Err(x) => x == e,
            },
    {
        let name = cp.get_utf8(self.name)?;
        if is_named(&name, "LineNumberTable") {
            Ok(CodeAttribute::LineNumberTable(read_line_table(&self.info)?))
        } else if is_named(&name, "LocalVariableTable") {
            Ok(CodeAttribute::LocalVariableTable(read_local_table(&self.info, cp)?))
        } else if is_named(&name, "LocalVariableTypeTable") {
            Ok(CodeAttribute::LocalVariableTypeTable(read_local_table(&self.info, cp)?))
        } else {
            Ok(CodeAttribute::Unknown(name, copy_bytes(&self.info)))
        }
    }
}


/// A copy of `b`.
pub fn copy_bytes(b: &Vec<u8>) -> (r: Vec<u8>)
    ensures
        r@ == b@,
{
    let r = slice_to_vec(b.as_slice(), 0, b.len());
    assert(b@.subrange(0, b@.len() as int) =~= b@);
    r
}

impl View for RawAttribute {
    type V = (u16, Seq<u8>);

    open spec fn view(&self) -> (u16, Seq<u8>) {
        (self.name, self.info@)
    }
}

pub open spec fn prepend_attr(a: (u16, Seq<u8>), r: Result<(Seq<(u16, Seq<u8>)>, int), JomError>) -> Result<(Seq<(u16, Seq<u8>)>, int), JomError> {
    match r {
        Ok((rest, end)) => Ok((seq![a] + rest, end)),
        Err(e) => Err(e),
    }
}

/// `count` attribute records from `pos` on, and the position after them.
pub open spec fn parse_attributes(b: Seq<u8>, pos: int, count: int) -> Result<(Seq<(u16, Seq<u8>)>, int), JomError>
    decreases count,
{
    if count <= 0 {
        Ok((Seq::empty(), pos))
    } else {
        match parse_attribute(b, pos) {
            Ok((n, info, end)) => prepend_attr((n, info), parse_attributes(b, end, count - 1)),
            Err(e) => Err(e),
        }
    }
}

/// Reads `count` attribute records from `pos`; returns them with the position after them.
pub fn read_attributes(b: &[u8], pos: usize, count: u16) -> (r: JomResult<(Vec<RawAttribute>, usize)>)
    ensures
        r matches Ok((v, end)) ==> parse_attributes(b@, pos as int, count as int)
            == Ok::<(Seq<(u16, Seq<u8>)>, int), JomError>((v@.map_values(|a: RawAttribute| a@), end as int)),
        r matches Err(e) ==> parse_attributes(b@, pos as int, count as int) == Err::<(Seq<(u16, Seq<u8>)>, int), JomError>(e),
{
    let mut v: Vec<RawAttribute> = Vec::new();
    let mut p = pos;
    let mut k: u16 = 0;
    while k < count
        invariant
            k <= count,
            parse_attributes(b@, pos as int, count as int) == match parse_attributes(b@, p as int, count - k) {
                Ok((rest, end)) => Ok((v@.map_values(|a: RawAttribute| a@) + rest, end)),
                Err(e) => Err(e),
            },
        decreases count - k,
    {
        let ghost before = v@.map_values(|a: RawAttribute| a@);
        let (a, end) = RawAttribute::read(b, p)?;
        let ghost av = a@;
        v.push(a);
        proof {
            assert(v@.map_values(|a: RawAttribute| a@) =~= before.push(av));
            match parse_attributes(b@, end as int, count - k - 1) {
                Ok((rest, e2)) => {
                    assert(before + (seq![av] + rest) =~= before.push(av) + rest);
                },
                Err(_) => {},
            }
        }
        p = end;
        k += 1;
    }
    assert(v@.map_values(|a: RawAttribute| a@) + Seq::<(u16, Seq<u8>)>::empty() =~= v@.map_values(|a: RawAttribute| a@));
    Ok((v, p))
}

} // verus!
