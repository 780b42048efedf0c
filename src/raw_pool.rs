use vstd::prelude::*;

use crate::bytes::{be16, be32, read_u16, read_u32, read_u8};
use crate::error::{JomError, JomResult, PoolKind};
use crate::utf8::{parse_text, read_text};

verus! {

/// What a `MethodHandle` entry refers to.
#[derive(Clone, Copy, Debug, PartialEq, Eq, Structural)]
pub enum MethodHandleReferenceKind {
    GetField,
    GetStatic,
    PutField,
    PutStatic,
    InvokeVirtual,
    InvokeStatic,
    InvokeSpecial,
    NewInvokeSpecial,
    InvokeInterface,
}

pub open spec fn ref_kind_of(b: u8) -> Option<MethodHandleReferenceKind> {
    if b == 1 {
        Some(MethodHandleReferenceKind::GetField)
    } else if b == 2 {
        Some(MethodHandleReferenceKind::GetStatic)
    } else if b == 3 {
        Some(MethodHandleReferenceKind::PutField)
    } else if b == 4 {
        Some(MethodHandleReferenceKind::PutStatic)
    } else if b == 5 {
        Some(MethodHandleReferenceKind::InvokeVirtual)
    } else if b == 6 {
        Some(MethodHandleReferenceKind::InvokeStatic)
    } else if b == 7 {
        Some(MethodHandleReferenceKind::InvokeSpecial)
    } else if b == 8 {
        Some(MethodHandleReferenceKind::NewInvokeSpecial)
    } else if b == 9 {
        Some(MethodHandleReferenceKind::InvokeInterface)
    } else {
        None
    }
}

pub open spec fn ref_kind_byte(k: MethodHandleReferenceKind) -> u8 {
    match k {
        MethodHandleReferenceKind::GetField => 1,
        MethodHandleReferenceKind::GetStatic => 2,
        MethodHandleReferenceKind::PutField => 3,
        MethodHandleReferenceKind::PutStatic => 4,
        MethodHandleReferenceKind::InvokeVirtual => 5,
        MethodHandleReferenceKind::InvokeStatic => 6,
        MethodHandleReferenceKind::InvokeSpecial => 7,
        MethodHandleReferenceKind::NewInvokeSpecial => 8,
        MethodHandleReferenceKind::InvokeInterface => 9,
    }
}

impl MethodHandleReferenceKind {
    pub fn from_u8(b: u8) -> (r: Option<MethodHandleReferenceKind>)
        ensures
            r == ref_kind_of(b),
    {
        match b {
            1 => Some(MethodHandleReferenceKind::GetField),
            2 => Some(MethodHandleReferenceKind::GetStatic),
            3 => Some(MethodHandleReferenceKind::PutField),
            4 => Some(MethodHandleReferenceKind::PutStatic),
            5 => Some(MethodHandleReferenceKind::InvokeVirtual),
            6 => Some(MethodHandleReferenceKind::InvokeStatic),
            7 => Some(MethodHandleReferenceKind::InvokeSpecial),
            8 => Some(MethodHandleReferenceKind::NewInvokeSpecial),
            9 => Some(MethodHandleReferenceKind::InvokeInterface),
            _ => None,
        }
    }

    pub fn to_u8(&self) -> (r: u8)
        ensures
            r == ref_kind_byte(*self),
            ref_kind_of(r) == Some(*self),
    {
        match self {
            MethodHandleReferenceKind::GetField => 1,
            MethodHandleReferenceKind::GetStatic => 2,
            MethodHandleReferenceKind::PutField => 3,
            MethodHandleReferenceKind::PutStatic => 4,
            MethodHandleReferenceKind::InvokeVirtual => 5,
            MethodHandleReferenceKind::InvokeStatic => 6,
            MethodHandleReferenceKind::InvokeSpecial => 7,
            MethodHandleReferenceKind::NewInvokeSpecial => 8,
            MethodHandleReferenceKind::InvokeInterface => 9,
        }
    }
}

/// A pool entry as it stands in the file: references are pool indices.
/// `Float` and `Double` hold their IEEE 754 bits.
pub enum RawConstantPoolIndex {
    Utf8(String),
    Integer(i32),
    Float(u32),
    Long(i64),
    Double(u64),
    Class(u16),
    String(u16),
    Fieldref(u16, u16),
    Methodref(u16, u16),
    InterfaceMethodref(u16, u16),
    NameAndType(u16, u16),
    MethodHandle(MethodHandleReferenceKind, u16),
    MethodType(u16),
    Dynamic(u16, u16),
    InvokeDynamic(u16, u16),
    Module(u16),
    Package(u16),
    Unusable,
}

/// The mathematical value of a raw entry.
pub enum RawEntry {
    Utf8(Seq<char>),
    Integer(i32),
    Float(u32),
    Long(i64),
    Double(u64),
    Class(u16),
    String(u16),
    Fieldref(u16, u16),
    Methodref(u16, u16),
    InterfaceMethodref(u16, u16),
    NameAndType(u16, u16),
    MethodHandle(MethodHandleReferenceKind, u16),
    MethodType(u16),
    Dynamic(u16, u16),
    InvokeDynamic(u16, u16),
    Module(u16),
    Package(u16),
    Unusable,
}

impl View for RawConstantPoolIndex {
    type V = RawEntry;

    open spec fn view(&self) -> RawEntry {
        match self {
            RawConstantPoolIndex::Utf8(s) => RawEntry::Utf8(s@),
            RawConstantPoolIndex::Integer(v) => RawEntry::Integer(*v),
            RawConstantPoolIndex::Float(v) => RawEntry::Float(*v),
            RawConstantPoolIndex::Long(v) => RawEntry::Long(*v),
            RawConstantPoolIndex::Double(v) => RawEntry::Double(*v),
            RawConstantPoolIndex::Class(i) => RawEntry::Class(*i),
            RawConstantPoolIndex::String(i) => RawEntry::String(*i),
            RawConstantPoolIndex::Fieldref(c, n) => RawEntry::Fieldref(*c, *n),
            RawConstantPoolIndex::Methodref(c, n) => RawEntry::Methodref(*c, *n),
            RawConstantPoolIndex::InterfaceMethodref(c, n) => RawEntry::InterfaceMethodref(*c, *n),
            RawConstantPoolIndex::NameAndType(n, d) => RawEntry::NameAndType(*n, *d),
            RawConstantPoolIndex::MethodHandle(k, i) => RawEntry::MethodHandle(*k, *i),
            RawConstantPoolIndex::MethodType(i) => RawEntry::MethodType(*i),
            RawConstantPoolIndex::Dynamic(b, n) => RawEntry::Dynamic(*b, *n),
            RawConstantPoolIndex::InvokeDynamic(b, n) => RawEntry::InvokeDynamic(*b, *n),
            RawConstantPoolIndex::Module(i) => RawEntry::Module(*i),
            RawConstantPoolIndex::Package(i) => RawEntry::Package(*i),
            RawConstantPoolIndex::Unusable => RawEntry::Unusable,
        }
    }
}

pub open spec fn raw_kind(e: RawEntry) -> PoolKind {
    match e {
        RawEntry::Utf8(_) => PoolKind::Utf8,
        RawEntry::Integer(_) => PoolKind::Integer,
        RawEntry::Float(_) => PoolKind::Float,
        RawEntry::Long(_) => PoolKind::Long,
        RawEntry::Double(_) => PoolKind::Double,
        RawEntry::Class(_) => PoolKind::Class,
        RawEntry::String(_) => PoolKind::String,
        RawEntry::Fieldref(..) => PoolKind::Fieldref,
        RawEntry::Methodref(..) => PoolKind::Methodref,
        RawEntry::InterfaceMethodref(..) => PoolKind::InterfaceMethodref,
        RawEntry::NameAndType(..) => PoolKind::NameAndType,
        RawEntry::MethodHandle(..) => PoolKind::MethodHandle,
        RawEntry::MethodType(_) => PoolKind::MethodType,
        RawEntry::Dynamic(..) => PoolKind::Dynamic,
        RawEntry::InvokeDynamic(..) => PoolKind::InvokeDynamic,
        RawEntry::Module(_) => PoolKind::Module,
        RawEntry::Package(_) => PoolKind::Package,
        RawEntry::Unusable => PoolKind::Unusable,
    }
}

impl RawConstantPoolIndex {
    pub fn kind(&self) -> (r: PoolKind)
        ensures
            r == raw_kind(self@),
    {
        match self {
            RawConstantPoolIndex::Utf8(_) => PoolKind::Utf8,
            RawConstantPoolIndex::Integer(_) => PoolKind::Integer,
            RawConstantPoolIndex::Float(_) => PoolKind::Float,
            RawConstantPoolIndex::Long(_) => PoolKind::Long,
            RawConstantPoolIndex::Double(_) => PoolKind::Double,
            RawConstantPoolIndex::Class(_) => PoolKind::Class,
            RawConstantPoolIndex::String(_) => PoolKind::String,
            RawConstantPoolIndex::Fieldref(..) => PoolKind::Fieldref,
            RawConstantPoolIndex::Methodref(..) => PoolKind::Methodref,
            RawConstantPoolIndex::InterfaceMethodref(..) => PoolKind::InterfaceMethodref,
            RawConstantPoolIndex::NameAndType(..) => PoolKind::NameAndType,
            RawConstantPoolIndex::MethodHandle(..) => PoolKind::MethodHandle,
            RawConstantPoolIndex::MethodType(_) => PoolKind::MethodType,
            RawConstantPoolIndex::Dynamic(..) => PoolKind::Dynamic,
            RawConstantPoolIndex::InvokeDynamic(..) => PoolKind::InvokeDynamic,
            RawConstantPoolIndex::Module(_) => PoolKind::Module,
            RawConstantPoolIndex::Package(_) => PoolKind::Package,
            RawConstantPoolIndex::Unusable => PoolKind::Unusable,
        }
    }
}

/// The big-endian 64-bit value at `i`.
pub open spec fn be64(b: Seq<u8>, i: int) -> u64 {
    (be32(b, i) as int * 0x1_0000_0000 + be32(b, i + 4) as int) as u64
}

/// The raw entry whose tag byte stands at `pos`, and the position after it.
#[verifier::opaque]
pub open spec fn parse_raw_entry(b: Seq<u8>, pos: int) -> Result<(RawEntry, int), JomError> {
    let p = pos + 1;
    if !(0 <= pos < b.len()) {
        Err(JomError::Malformed)
    } else if b[pos] == 1 {
        match parse_text(b, p) {
            Ok((s, e)) => Ok((RawEntry::Utf8(s), e)),
            Err(e) => Err(e),
        }
    } else if b[pos] == 5 || b[pos] == 6 {
        if p + 8 <= b.len() {
            if b[pos] == 5 {
                Ok((RawEntry::Long(be64(b, p) as i64), p + 8))
            } else {
                Ok((RawEntry::Double(be64(b, p)), p + 8))
            }
        } else {
            Err(JomError::Malformed)
        }
    } else if b[pos] == 3 || b[pos] == 4 || b[pos] == 9 || b[pos] == 10 || b[pos] == 11
        || b[pos] == 12 || b[pos] == 17 || b[pos] == 18 {
        if p + 4 <= b.len() {
            let x = be16(b, p);
            let y = be16(b, p + 2);
            let e = if b[pos] == 3 {
                RawEntry::Integer(be32(b, p) as i32)
            } else if b[pos] == 4 {
                RawEntry::Float(be32(b, p))
            } else if b[pos] == 9 {
                RawEntry::Fieldref(x, y)
            } else if b[pos] == 10 {
                RawEntry::Methodref(x, y)
            } else if b[pos] == 11 {
                RawEntry::InterfaceMethodref(x, y)
            } else if b[pos] == 12 {
                RawEntry::NameAndType(x, y)
            } else if b[pos] == 17 {
                RawEntry::Dynamic(x, y)
            } else {
                RawEntry::InvokeDynamic(x, y)
            };
            Ok((e, p + 4))
        } else {
            Err(JomError::Malformed)
        }
    } else if b[pos] == 7 || b[pos] == 8 || b[pos] == 16 || b[pos] == 19 || b[pos] == 20 {
        if p + 2 <= b.len() {
            let x = be16(b, p);
            let e = if b[pos] == 7 {
                RawEntry::Class(x)
            } else if b[pos] == 8 {
                RawEntry::String(x)
            } else if b[pos] == 16 {
                RawEntry::MethodType(x)
            } else if b[pos] == 19 {
                RawEntry::Module(x)
            } else {
                RawEntry::Package(x)
            };
            Ok((e, p + 2))
        } else {
            Err(JomError::Malformed)
        }
    } else if b[pos] == 15 {
        if p + 3 <= b.len() {
            match ref_kind_of(b[p]) {
                Some(k) => Ok((RawEntry::MethodHandle(k, be16(b, p + 1)), p + 3)),
                None => Err(JomError::Malformed),
            }
        } else {
            Err(JomError::Malformed)
        }
    } else {
        Err(JomError::Malformed)
    }
}

impl RawConstantPoolIndex {
    /// Reads the entry whose tag byte stands at `pos`; returns it with the position after it.
    pub fn read_options(b: &[u8], pos: usize) -> (r: JomResult<(RawConstantPoolIndex, usize)>)
        ensures
            r matches Ok((e, end)) ==> parse_raw_entry(b@, pos as int) == Ok::<(RawEntry, int), JomError>((e@, end as int)),
            r matches Ok((e, end)) ==> pos < end <= b@.len(),
            r matches Err(err) ==> parse_raw_entry(b@, pos as int) == Err::<(RawEntry, int), JomError>(err),
    {
        proof {
            reveal(parse_raw_entry);
        }
        let len = b.len();
        let tag = match read_u8(b, pos) {
            Some(t) => t,
            None => return Err(JomError::Malformed),
        };
        let p = pos + 1;
        if tag == 1 {
            let (s, end) = read_text(b, p)?;
            return Ok((RawConstantPoolIndex::Utf8(s), end));
        }
        if tag == 5 || tag == 6 {
            let hi = match read_u32(b, p) {
                Some(v) => v,
                None => return Err(JomError::Malformed),
            };
            assert(p + 4 <= len);
            let lo = match read_u32(b, p + 4) {
                Some(v) => v,
                None => return Err(JomError::Malformed),
            };
            let v: u64 = hi as u64 * 0x1_0000_0000 + lo as u64;
            if tag == 5 {
                return Ok((RawConstantPoolIndex::Long(#[verifier::truncate] (v as i64)), p + 8));
            } else {
                return Ok((RawConstantPoolIndex::Double(v), p + 8));
            }
        }
        if tag == 3 || tag == 4 || tag == 9 || tag == 10 || tag == 11 || tag == 12 || tag == 17 || tag == 18 {
            let w = match read_u32(b, p) {
                Some(v) => v,
                None => return Err(JomError::Malformed),
            };
            let x = match read_u16(b, p) {
                Some(v) => v,
                None => return Err(JomError::Malformed),
            };
            let y = match read_u16(b, p + 2) {
                Some(v) => v,
                None => return Err(JomError::Malformed),
            };
            let e = if tag == 3 {
                RawConstantPoolIndex::Integer(#[verifier::truncate] (w as i32))
            } else if tag == 4 {
                RawConstantPoolIndex::Float(w)
            } else if tag == 9 {
                RawConstantPoolIndex::Fieldref(x, y)
            } else if tag == 10 {
                RawConstantPoolIndex::Methodref(x, y)
            } else if tag == 11 {
                RawConstantPoolIndex::InterfaceMethodref(x, y)
            } else if tag == 12 {
                RawConstantPoolIndex::NameAndType(x, y)
            } else if tag == 17 {
                RawConstantPoolIndex::Dynamic(x, y)
            } else {
                RawConstantPoolIndex::InvokeDynamic(x, y)
            };
            return Ok((e, p + 4));
        }
        if tag == 7 || tag == 8 || tag == 16 || tag == 19 || tag == 20 {
            let x = match read_u16(b, p) {
                Some(v) => v,
                None => return Err(JomError::Malformed),
            };
            let e = if tag == 7 {
                RawConstantPoolIndex::Class(x)
            } else if tag == 8 {
                RawConstantPoolIndex::String(x)
            } else if tag == 16 {
                RawConstantPoolIndex::MethodType(x)
            } else if tag == 19 {
                RawConstantPoolIndex::Module(x)
            } else {
                RawConstantPoolIndex::Package(x)
            };
            return Ok((e, p + 2));
        }
        if tag == 15 {
            let kb = match read_u8(b, p) {
                Some(v) => v,
                None => return Err(JomError::Malformed),
            };
            let x = match read_u16(b, p + 1) {
                Some(v) => v,
                None => return Err(JomError::Malformed),
            };
            return match MethodHandleReferenceKind::from_u8(kb) {
                Some(k) => Ok((RawConstantPoolIndex::MethodHandle(k, x), p + 3)),
                None => Err(JomError::Malformed),
            };
        }
        Err(JomError::Malformed)
    }
}


pub open spec fn raw_model(s: Seq<RawConstantPoolIndex>) -> Seq<RawEntry> {
    s.map_values(|e: RawConstantPoolIndex| e@)
}

pub open spec fn raw_kinds(s: Seq<RawEntry>) -> Seq<PoolKind> {
    s.map_values(|e: RawEntry| raw_kind(e))
}

/// `Long` and `Double` take two slots.
pub open spec fn is_wide_kind(k: PoolKind) -> bool {
    k == PoolKind::Long || k == PoolKind::Double
}

/// Slot 0 is `Unusable`, the slot after each `Long` or `Double` is `Unusable`,
/// and no other slot is.
pub open spec fn pool_layout(k: Seq<PoolKind>) -> bool {
    &&& k.len() >= 1
    &&& k[0] == PoolKind::Unusable
    &&& forall|i: int| 1 <= i < k.len() ==> (#[trigger] k[i] == PoolKind::Unusable <==> is_wide_kind(k[i - 1]))
    &&& forall|i: int| 0 <= i < k.len() && is_wide_kind(#[trigger] k[i]) ==> i + 1 < k.len()
}

/// Prepends `prefix` to the entries of a successful parse.
pub open spec fn prepend(prefix: Seq<RawEntry>, r: Result<(Seq<RawEntry>, int), JomError>) -> Result<(Seq<RawEntry>, int), JomError> {
    match r {
        Ok((rest, q)) => Ok((prefix + rest, q)),
        Err(e) => Err(e),
    }
}

/// The entries for slots `i` to `count - 1`, read from `pos`.
pub open spec fn parse_pool_from(b: Seq<u8>, pos: int, i: int, count: int) -> Result<(Seq<RawEntry>, int), JomError>
    decreases count - i,
{
    if i >= count {
        Ok((Seq::empty(), pos))
    } else {
        match parse_raw_entry(b, pos) {
            Err(e) => Err(e),
            Ok((e, p)) => if is_wide_kind(raw_kind(e)) {
                if i + 2 > count {
                    Err(JomError::Malformed)
                } else {
                    prepend(seq![e, RawEntry::Unusable], parse_pool_from(b, p, i + 2, count))
                }
            } else {
                prepend(seq![e], parse_pool_from(b, p, i + 1, count))
            },
        }
    }
}

/// The raw pool whose count stands at `pos`, with slot 0 `Unusable`, and the position after it.
pub open spec fn parse_raw_pool(b: Seq<u8>, pos: int) -> Result<(Seq<RawEntry>, int), JomError> {
    if 0 <= pos && pos + 2 <= b.len() && be16(b, pos) >= 1 {
        prepend(seq![RawEntry::Unusable], parse_pool_from(b, pos + 2, 1, be16(b, pos) as int))
    } else {
        Err(JomError::Malformed)
    }
}

/// Reads the constant pool whose count stands at `pos`.
pub fn constant_pool_parser(b: &[u8], pos: usize) -> (r: JomResult<(Vec<RawConstantPoolIndex>, usize)>)
    ensures
        r matches Ok((v, end)) ==> parse_raw_pool(b@, pos as int) == Ok::<(Seq<RawEntry>, int), JomError>((raw_model(v@), end as int))
            && pool_layout(raw_kinds(raw_model(v@))) && v@.len() == be16(b@, pos as int) && end <= b@.len(),
        r matches Err(e) ==> parse_raw_pool(b@, pos as int) == Err::<(Seq<RawEntry>, int), JomError>(e),
{
    let len = b.len();
    let count = match read_u16(b, pos) {
        Some(c) => c,
        None => return Err(JomError::Malformed),
    };
    if count == 0 {
        return Err(JomError::Malformed);
    }
    let mut v: Vec<RawConstantPoolIndex> = Vec::new();
    v.push(RawConstantPoolIndex::Unusable);
    let mut p: usize = pos + 2;
    let mut i: usize = 1;
    assert(raw_model(v@) =~= seq![RawEntry::Unusable]);
    while i < count as usize
        invariant
            1 <= i,
            i <= count as int,
            count >= 1,
            v@.len() == i,
            p <= b@.len(),
            count == be16(b@, pos as int),
            pos + 2 <= b@.len(),
            i < count ==> parse_raw_pool(b@, pos as int) == prepend(raw_model(v@), parse_pool_from(b@, p as int, i as int, count as int)),
            i >= count ==> parse_raw_pool(b@, pos as int) == prepend(raw_model(v@), Ok((Seq::empty(), p as int))),
            pool_layout(raw_kinds(raw_model(v@))),
        decreases count as int - i,
    {
        let (e, q) = match RawConstantPoolIndex::read_options(b, p) {
            Ok(x) => x,
            Err(err) => return Err(err),
        };
        let ghost old_v = raw_model(v@);
        let k = e.kind();
        assert(e@ != RawEntry::Unusable) by {
            reveal(parse_raw_entry);
        }
        if k == PoolKind::Long || k == PoolKind::Double {
            if i + 2 > count as usize {
                return Err(JomError::Malformed);
            }
            v.push(e);
            v.push(RawConstantPoolIndex::Unusable);
            i += 2;
            assert(raw_model(v@) =~= old_v + seq![e@, RawEntry::Unusable]);
        } else {
            v.push(e);
            i += 1;
            assert(raw_model(v@) =~= old_v + seq![e@]);
        }
        p = q;
        proof {
            let r = parse_pool_from(b@, p as int, i as int, count as int);
            match r {
                Ok((rest, q2)) => {
                    assert(old_v + (seq![e@, RawEntry::Unusable] + rest) =~= (old_v + seq![e@, RawEntry::Unusable]) + rest);
                    assert(old_v + (seq![e@] + rest) =~= (old_v + seq![e@]) + rest);
                },
                Err(_) => {},
            }
            let ks = raw_kinds(raw_model(v@));
            let ko = raw_kinds(old_v);
            assert forall|j: int| 0 <= j < ko.len() implies ks[j] == ko[j] by {}
        }
    }
    assert(raw_model(v@) + Seq::<RawEntry>::empty() =~= raw_model(v@));
    Ok((v, p))
}

} // verus!
