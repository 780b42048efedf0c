use vstd::prelude::*;

use crate::error::{Expected, JomError, JomResult, PoolKind};
use crate::raw_pool::{is_wide_kind, pool_layout, MethodHandleReferenceKind};

verus! {

/// A pool entry with every reference replaced by the value it names.
/// `Float` and `Double` hold their IEEE 754 bits.
pub enum ConstantPoolIndex {
    Utf8(String),
    Integer(i32),
    Float(u32),
    Long(i64),
    Double(u64),
    Class(String),
    String(String),
    Fieldref {
        class: String,
        name: String,
        descriptor: String,
    },
    Methodref {
        class: String,
        name: String,
        descriptor: String,
    },
    InterfaceMethodref {
        class: String,
        name: String,
        descriptor: String,
    },
    NameAndType(String, String),
    MethodHandle {
        kind: MethodHandleReferenceKind,
        class: String,
        name: String,
        descriptor: String,
    },
    MethodType(String),
    Dynamic {
        bootstrap_method_attr_index: u16,
        name: String,
        descriptor: String,
    },
    InvokeDynamic {
        bootstrap_method_attr_index: u16,
        name: String,
        descriptor: String,
    },
    Module(String),
    Package(String),
    Unusable,
}

/// The mathematical value of a resolved entry.
pub enum Constant {
    Utf8(Seq<char>),
    Integer(i32),
    Float(u32),
    Long(i64),
    Double(u64),
    Class(Seq<char>),
    String(Seq<char>),
    Fieldref(Seq<char>, Seq<char>, Seq<char>),
    Methodref(Seq<char>, Seq<char>, Seq<char>),
    InterfaceMethodref(Seq<char>, Seq<char>, Seq<char>),
    NameAndType(Seq<char>, Seq<char>),
    MethodHandle(MethodHandleReferenceKind, Seq<char>, Seq<char>, Seq<char>),
    MethodType(Seq<char>),
    Dynamic(u16, Seq<char>, Seq<char>),
    InvokeDynamic(u16, Seq<char>, Seq<char>),
    Module(Seq<char>),
    Package(Seq<char>),
    Unusable,
}

impl View for ConstantPoolIndex {
    type V = Constant;

    open spec fn view(&self) -> Constant {
        match self {
            ConstantPoolIndex::Utf8(x0) => Constant::Utf8(x0@),
            ConstantPoolIndex::Integer(x0) => Constant::Integer(*x0),
            ConstantPoolIndex::Float(x0) => Constant::Float(*x0),
            ConstantPoolIndex::Long(x0) => Constant::Long(*x0),
            ConstantPoolIndex::Double(x0) => Constant::Double(*x0),
            ConstantPoolIndex::Class(x0) => Constant::Class(x0@),
            ConstantPoolIndex::String(x0) => Constant::String(x0@),
            ConstantPoolIndex::Fieldref { class, name, descriptor } => Constant::Fieldref(class@, name@, descriptor@),
            ConstantPoolIndex::Methodref { class, name, descriptor } => Constant::Methodref(class@, name@, descriptor@),
            ConstantPoolIndex::InterfaceMethodref { class, name, descriptor } => Constant::InterfaceMethodref(class@, name@, descriptor@),
            ConstantPoolIndex::NameAndType(x0, x1) => Constant::NameAndType(x0@, x1@),
            ConstantPoolIndex::MethodHandle { kind, class, name, descriptor } => Constant::MethodHandle(*kind, class@, name@, descriptor@),
            ConstantPoolIndex::MethodType(x0) => Constant::MethodType(x0@),
            ConstantPoolIndex::Dynamic { bootstrap_method_attr_index, name, descriptor } => Constant::Dynamic(*bootstrap_method_attr_index, name@, descriptor@),
            ConstantPoolIndex::InvokeDynamic { bootstrap_method_attr_index, name, descriptor } => Constant::InvokeDynamic(*bootstrap_method_attr_index, name@, descriptor@),
            ConstantPoolIndex::Module(x0) => Constant::Module(x0@),
            ConstantPoolIndex::Package(x0) => Constant::Package(x0@),
            ConstantPoolIndex::Unusable => Constant::Unusable,
        }
    }
}

pub open spec fn constant_kind(c: Constant) -> PoolKind {
    match c {
        Constant::Utf8(..) => PoolKind::Utf8,
        Constant::Integer(..) => PoolKind::Integer,
        Constant::Float(..) => PoolKind::Float,
        Constant::Long(..) => PoolKind::Long,
        Constant::Double(..) => PoolKind::Double,
        Constant::Class(..) => PoolKind::Class,
        Constant::String(..) => PoolKind::String,
        Constant::Fieldref(..) => PoolKind::Fieldref,
        Constant::Methodref(..) => PoolKind::Methodref,
        Constant::InterfaceMethodref(..) => PoolKind::InterfaceMethodref,
        Constant::NameAndType(..) => PoolKind::NameAndType,
        Constant::MethodHandle(..) => PoolKind::MethodHandle,
        Constant::MethodType(..) => PoolKind::MethodType,
        Constant::Dynamic(..) => PoolKind::Dynamic,
        Constant::InvokeDynamic(..) => PoolKind::InvokeDynamic,
        Constant::Module(..) => PoolKind::Module,
        Constant::Package(..) => PoolKind::Package,
        Constant::Unusable => PoolKind::Unusable,
    }
}

pub struct Fieldref {
    pub class: String,
    pub name: String,
    pub descriptor: String,
}

pub struct Methodref {
    pub class: String,
    pub name: String,
    pub descriptor: String,
}

pub struct InterfaceMethodref {
    pub class: String,
    pub name: String,
    pub descriptor: String,
}

pub struct MethodHandle {
    pub kind: MethodHandleReferenceKind,
    pub class: String,
    pub name: String,
    pub descriptor: String,
}

pub struct Dynamic {
    pub bootstrap_method_attr_index: u16,
    pub name: String,
    pub descriptor: String,
}

pub struct InvokeDynamic {
    pub bootstrap_method_attr_index: u16,
    pub name: String,
    pub descriptor: String,
}

impl ConstantPoolIndex {
    pub fn kind(&self) -> (r: PoolKind)
        ensures
            r == constant_kind(self@),
    {
        match self {
            ConstantPoolIndex::Utf8(..) => PoolKind::Utf8,
            ConstantPoolIndex::Integer(..) => PoolKind::Integer,
            ConstantPoolIndex::Float(..) => PoolKind::Float,
            ConstantPoolIndex::Long(..) => PoolKind::Long,
            ConstantPoolIndex::Double(..) => PoolKind::Double,
            ConstantPoolIndex::Class(..) => PoolKind::Class,
            ConstantPoolIndex::String(..) => PoolKind::String,
            ConstantPoolIndex::Fieldref { .. } => PoolKind::Fieldref,
            ConstantPoolIndex::Methodref { .. } => PoolKind::Methodref,
            ConstantPoolIndex::InterfaceMethodref { .. } => PoolKind::InterfaceMethodref,
            ConstantPoolIndex::NameAndType(..) => PoolKind::NameAndType,
            ConstantPoolIndex::MethodHandle { .. } => PoolKind::MethodHandle,
            ConstantPoolIndex::MethodType(..) => PoolKind::MethodType,
            ConstantPoolIndex::Dynamic { .. } => PoolKind::Dynamic,
            ConstantPoolIndex::InvokeDynamic { .. } => PoolKind::InvokeDynamic,
            ConstantPoolIndex::Module(..) => PoolKind::Module,
            ConstantPoolIndex::Package(..) => PoolKind::Package,
            ConstantPoolIndex::Unusable => PoolKind::Unusable,
        }
    }

    /// The entry's kind, by name.
    pub fn name(&self) -> (r: &'static str)
        ensures
            r@ == crate::error::kind_name(constant_kind(self@)),
    {
        self.kind().name()
    }

    /// A copy of the entry.
    pub fn duplicate(&self) -> (r: ConstantPoolIndex)
        ensures
            r@ == self@,
    {
        match self {
            ConstantPoolIndex::Utf8(x0) => ConstantPoolIndex::Utf8(x0.clone()),
            ConstantPoolIndex::Integer(x0) => ConstantPoolIndex::Integer(*x0),
            ConstantPoolIndex::Float(x0) => ConstantPoolIndex::Float(*x0),
            ConstantPoolIndex::Long(x0) => ConstantPoolIndex::Long(*x0),
            ConstantPoolIndex::Double(x0) => ConstantPoolIndex::Double(*x0),
            ConstantPoolIndex::Class(x0) => ConstantPoolIndex::Class(x0.clone()),
            ConstantPoolIndex::String(x0) => ConstantPoolIndex::String(x0.clone()),
            ConstantPoolIndex::Fieldref { class, name, descriptor } => ConstantPoolIndex::Fieldref { class: class.clone(), name: name.clone(), descriptor: descriptor.clone() },
            ConstantPoolIndex::Methodref { class, name, descriptor } => ConstantPoolIndex::Methodref { class: class.clone(), name: name.clone(), descriptor: descriptor.clone() },
            ConstantPoolIndex::InterfaceMethodref { class, name, descriptor } => ConstantPoolIndex::InterfaceMethodref { class: class.clone(), name: name.clone(), descriptor: descriptor.clone() },
            ConstantPoolIndex::NameAndType(x0, x1) => ConstantPoolIndex::NameAndType(x0.clone(), x1.clone()),
            ConstantPoolIndex::MethodHandle { kind, class, name, descriptor } => ConstantPoolIndex::MethodHandle { kind: *kind, class: class.clone(), name: name.clone(), descriptor: descriptor.clone() },
            ConstantPoolIndex::MethodType(x0) => ConstantPoolIndex::MethodType(x0.clone()),
            ConstantPoolIndex::Dynamic { bootstrap_method_attr_index, name, descriptor } => ConstantPoolIndex::Dynamic { bootstrap_method_attr_index: *bootstrap_method_attr_index, name: name.clone(), descriptor: descriptor.clone() },
            ConstantPoolIndex::InvokeDynamic { bootstrap_method_attr_index, name, descriptor } => ConstantPoolIndex::InvokeDynamic { bootstrap_method_attr_index: *bootstrap_method_attr_index, name: name.clone(), descriptor: descriptor.clone() },
            ConstantPoolIndex::Module(x0) => ConstantPoolIndex::Module(x0.clone()),
            ConstantPoolIndex::Package(x0) => ConstantPoolIndex::Package(x0.clone()),
            ConstantPoolIndex::Unusable => ConstantPoolIndex::Unusable,
        }
    }

    /// Whether the two entries hold the same value.
    pub fn same(&self, other: &ConstantPoolIndex) -> (r: bool)
        ensures
            r == (self@ == other@),
    {
        match (self, other) {
            (ConstantPoolIndex::Utf8(x0), ConstantPoolIndex::Utf8(x0b)) => *x0 == *x0b,
            (ConstantPoolIndex::Integer(x0), ConstantPoolIndex::Integer(x0b)) => *x0 == *x0b,
            (ConstantPoolIndex::Float(x0), ConstantPoolIndex::Float(x0b)) => *x0 == *x0b,
            (ConstantPoolIndex::Long(x0), ConstantPoolIndex::Long(x0b)) => *x0 == *x0b,
            (ConstantPoolIndex::Double(x0), ConstantPoolIndex::Double(x0b)) => *x0 == *x0b,
            (ConstantPoolIndex::Class(x0), ConstantPoolIndex::Class(x0b)) => *x0 == *x0b,
            (ConstantPoolIndex::String(x0), ConstantPoolIndex::String(x0b)) => *x0 == *x0b,
            (ConstantPoolIndex::Fieldref { class, name, descriptor }, ConstantPoolIndex::Fieldref { class: classb, name: nameb, descriptor: descriptorb }) => *class == *classb && *name == *nameb && *descriptor == *descriptorb,
            (ConstantPoolIndex::Methodref { class, name, descriptor }, ConstantPoolIndex::Methodref { class: classb, name: nameb, descriptor: descriptorb }) => *class == *classb && *name == *nameb && *descriptor == *descriptorb,
            (ConstantPoolIndex::InterfaceMethodref { class, name, descriptor }, ConstantPoolIndex::InterfaceMethodref { class: classb, name: nameb, descriptor: descriptorb }) => *class == *classb && *name == *nameb && *descriptor == *descriptorb,
            (ConstantPoolIndex::NameAndType(x0, x1), ConstantPoolIndex::NameAndType(x0b, x1b)) => *x0 == *x0b && *x1 == *x1b,
            (ConstantPoolIndex::MethodHandle { kind, class, name, descriptor }, ConstantPoolIndex::MethodHandle { kind: kindb, class: classb, name: nameb, descriptor: descriptorb }) => *kind == *kindb && *class == *classb && *name == *nameb && *descriptor == *descriptorb,
            (ConstantPoolIndex::MethodType(x0), ConstantPoolIndex::MethodType(x0b)) => *x0 == *x0b,
            (ConstantPoolIndex::Dynamic { bootstrap_method_attr_index, name, descriptor }, ConstantPoolIndex::Dynamic { bootstrap_method_attr_index: bootstrap_method_attr_indexb, name: nameb, descriptor: descriptorb }) => *bootstrap_method_attr_index == *bootstrap_method_attr_indexb && *name == *nameb && *descriptor == *descriptorb,
            (ConstantPoolIndex::InvokeDynamic { bootstrap_method_attr_index, name, descriptor }, ConstantPoolIndex::InvokeDynamic { bootstrap_method_attr_index: bootstrap_method_attr_indexb, name: nameb, descriptor: descriptorb }) => *bootstrap_method_attr_index == *bootstrap_method_attr_indexb && *name == *nameb && *descriptor == *descriptorb,
            (ConstantPoolIndex::Module(x0), ConstantPoolIndex::Module(x0b)) => *x0 == *x0b,
            (ConstantPoolIndex::Package(x0), ConstantPoolIndex::Package(x0b)) => *x0 == *x0b,
            (ConstantPoolIndex::Unusable, ConstantPoolIndex::Unusable) => true,
            _ => {
                proof {
                    assert(constant_kind(self@) != constant_kind(other@));
                }
                false
            },
        }
    }

    pub fn into_utf8(self) -> (r: JomResult<String>)
        ensures
            r is Ok <==> self@ is Utf8,
            r matches Ok(x) ==> self@ == Constant::Utf8(x@),
            r matches Err(e) ==> e == JomError::ConstantPoolIndexError(Expected::Kind(PoolKind::Utf8), constant_kind(self@)),
    {
        match self {
            ConstantPoolIndex::Utf8(x) => Ok(x),
            x => Err(JomError::new_cp_index(PoolKind::Utf8, x.kind())),
        }
    }

    pub fn into_integer(self) -> (r: JomResult<i32>)
        ensures
            r is Ok <==> self@ is Integer,
            r matches Ok(x) ==> self@ == Constant::Integer(x),
            r matches Err(e) ==> e == JomError::ConstantPoolIndexError(Expected::Kind(PoolKind::Integer), constant_kind(self@)),
    {
        match self {
            ConstantPoolIndex::Integer(x) => Ok(x),
            x => Err(JomError::new_cp_index(PoolKind::Integer, x.kind())),
        }
    }

    pub fn into_float(self) -> (r: JomResult<u32>)
        ensures
            r is Ok <==> self@ is Float,
            r matches Ok(x) ==> self@ == Constant::Float(x),
            r matches Err(e) ==> e == JomError::ConstantPoolIndexError(Expected::Kind(PoolKind::Float), constant_kind(self@)),
    {
        match self {
            ConstantPoolIndex::Float(x) => Ok(x),
            x => Err(JomError::new_cp_index(PoolKind::Float, x.kind())),
        }
    }

    pub fn into_long(self) -> (r: JomResult<i64>)
        ensures
            r is Ok <==> self@ is Long,
            r matches Ok(x) ==> self@ == Constant::Long(x),
            r matches Err(e) ==> e == JomError::ConstantPoolIndexError(Expected::Kind(PoolKind::Long), constant_kind(self@)),
    {
        match self {
            ConstantPoolIndex::Long(x) => Ok(x),
            x => Err(JomError::new_cp_index(PoolKind::Long, x.kind())),
        }
    }

    pub fn into_double(self) -> (r: JomResult<u64>)
        ensures
            r is Ok <==> self@ is Double,
            r matches Ok(x) ==> self@ == Constant::Double(x),
            r matches Err(e) ==> e == JomError::ConstantPoolIndexError(Expected::Kind(PoolKind::Double), constant_kind(self@)),
    {
        match self {
            ConstantPoolIndex::Double(x) => Ok(x),
            x => Err(JomError::new_cp_index(PoolKind::Double, x.kind())),
        }
    }

    pub fn into_class(self) -> (r: JomResult<String>)
        ensures
            r is Ok <==> self@ is Class,
            r matches Ok(x) ==> self@ == Constant::Class(x@),
            r matches Err(e) ==> e == JomError::ConstantPoolIndexError(Expected::Kind(PoolKind::Class), constant_kind(self@)),
    {
        match self {
            ConstantPoolIndex::Class(x) => Ok(x),
            x => Err(JomError::new_cp_index(PoolKind::Class, x.kind())),
        }
    }

    pub fn into_string(self) -> (r: JomResult<String>)
        ensures
            r is Ok <==> self@ is String,
            r matches Ok(x) ==> self@ == Constant::String(x@),
            r matches Err(e) ==> e == JomError::ConstantPoolIndexError(Expected::Kind(PoolKind::String), constant_kind(self@)),
    {
        match self {
            ConstantPoolIndex::String(x) => Ok(x),
            x => Err(JomError::new_cp_index(PoolKind::String, x.kind())),
        }
    }

    pub fn into_module(self) -> (r: JomResult<String>)
        ensures
            r is Ok <==> self@ is Module,
            r matches Ok(x) ==> self@ == Constant::Module(x@),
            r matches Err(e) ==> e == JomError::ConstantPoolIndexError(Expected::Kind(PoolKind::Module), constant_kind(self@)),
    {
        match self {
            ConstantPoolIndex::Module(x) => Ok(x),
            x => Err(JomError::new_cp_index(PoolKind::Module, x.kind())),
        }
    }

    pub fn into_package(self) -> (r: JomResult<String>)
        ensures
            r is Ok <==> self@ is Package,
            r matches Ok(x) ==> self@ == Constant::Package(x@),
            r matches Err(e) ==> e == JomError::ConstantPoolIndexError(Expected::Kind(PoolKind::Package), constant_kind(self@)),
    {
        match self {
            ConstantPoolIndex::Package(x) => Ok(x),
            x => Err(JomError::new_cp_index(PoolKind::Package, x.kind())),
        }
    }

    pub fn into_fieldref(self) -> (r: JomResult<Fieldref>)
        ensures
            r is Ok <==> self@ is Fieldref,
            r matches Ok(x) ==> self@ == Constant::Fieldref(x.class@, x.name@, x.descriptor@),
            r matches Err(e) ==> e == JomError::ConstantPoolIndexError(Expected::Kind(PoolKind::Fieldref), constant_kind(self@)),
    {
        match self {
            ConstantPoolIndex::Fieldref { class, name, descriptor } => Ok(Fieldref { class, name, descriptor }),
            x => Err(JomError::new_cp_index(PoolKind::Fieldref, x.kind())),
        }
    }

    pub fn into_methodref(self) -> (r: JomResult<Methodref>)
        ensures
            r is Ok <==> self@ is Methodref,
            r matches Ok(x) ==> self@ == Constant::Methodref(x.class@, x.name@, x.descriptor@),
            r matches Err(e) ==> e == JomError::ConstantPoolIndexError(Expected::Kind(PoolKind::Methodref), constant_kind(self@)),
    {
        match self {
            ConstantPoolIndex::Methodref { class, name, descriptor } => Ok(Methodref { class, name, descriptor }),
            x => Err(JomError::new_cp_index(PoolKind::Methodref, x.kind())),
        }
    }

    pub fn into_interface_methodref(self) -> (r: JomResult<InterfaceMethodref>)
        ensures
            r is Ok <==> self@ is InterfaceMethodref,
            r matches Ok(x) ==> self@ == Constant::InterfaceMethodref(x.class@, x.name@, x.descriptor@),
            r matches Err(e) ==> e == JomError::ConstantPoolIndexError(Expected::Kind(PoolKind::InterfaceMethodref), constant_kind(self@)),
    {
        match self {
            ConstantPoolIndex::InterfaceMethodref { class, name, descriptor } => Ok(InterfaceMethodref { class, name, descriptor }),
            x => Err(JomError::new_cp_index(PoolKind::InterfaceMethodref, x.kind())),
        }
    }

    pub fn into_method_handle(self) -> (r: JomResult<MethodHandle>)
        ensures
            r is Ok <==> self@ is MethodHandle,
            r matches Ok(x) ==> self@ == Constant::MethodHandle(x.kind, x.class@, x.name@, x.descriptor@),
            r matches Err(e) ==> e == JomError::ConstantPoolIndexError(Expected::Kind(PoolKind::MethodHandle), constant_kind(self@)),
    {
        match self {
            ConstantPoolIndex::MethodHandle { kind, class, name, descriptor } => Ok(MethodHandle { kind, class, name, descriptor }),
            x => Err(JomError::new_cp_index(PoolKind::MethodHandle, x.kind())),
        }
    }

    pub fn into_dynamic(self) -> (r: JomResult<Dynamic>)
        ensures
            r is Ok <==> self@ is Dynamic,
            r matches Ok(x) ==> self@ == Constant::Dynamic(x.bootstrap_method_attr_index, x.name@, x.descriptor@),
            r matches Err(e) ==> e == JomError::ConstantPoolIndexError(Expected::Kind(PoolKind::Dynamic), constant_kind(self@)),
    {
        match self {
            ConstantPoolIndex::Dynamic { bootstrap_method_attr_index, name, descriptor } => Ok(Dynamic { bootstrap_method_attr_index, name, descriptor }),
            x => Err(JomError::new_cp_index(PoolKind::Dynamic, x.kind())),
        }
    }

    pub fn into_invoke_dynamic(self) -> (r: JomResult<InvokeDynamic>)
        ensures
            r is Ok <==> self@ is InvokeDynamic,
            r matches Ok(x) ==> self@ == Constant::InvokeDynamic(x.bootstrap_method_attr_index, x.name@, x.descriptor@),
            r matches Err(e) ==> e == JomError::ConstantPoolIndexError(Expected::Kind(PoolKind::InvokeDynamic), constant_kind(self@)),
    {
        match self {
            ConstantPoolIndex::InvokeDynamic { bootstrap_method_attr_index, name, descriptor } => Ok(InvokeDynamic { bootstrap_method_attr_index, name, descriptor }),
            x => Err(JomError::new_cp_index(PoolKind::InvokeDynamic, x.kind())),
        }
    }

    pub fn into_name_and_type(self) -> (r: JomResult<(String, String)>)
        ensures
            r is Ok <==> self@ is NameAndType,
            r matches Ok((n, d)) ==> self@ == Constant::NameAndType(n@, d@),
            r matches Err(e) ==> e == JomError::ConstantPoolIndexError(Expected::Kind(PoolKind::NameAndType), constant_kind(self@)),
    {
        match self {
            ConstantPoolIndex::NameAndType(n, d) => Ok((n, d)),
            x => Err(JomError::new_cp_index(PoolKind::NameAndType, x.kind())),
        }
    }
}


/// The first index from `from` on that holds `c`.
pub open spec fn first_index(p: Seq<Constant>, c: Constant, from: int) -> Option<int>
    decreases p.len() - from,
{
    if from < 0 || from >= p.len() {
        None
    } else if p[from] == c {
        Some(from)
    } else {
        first_index(p, c, from + 1)
    }
}

/// The entry at `i`, or the error for an index past the end.
pub open spec fn pool_get(p: Seq<Constant>, i: u16) -> Result<Constant, JomError> {
    if (i as int) < p.len() {
        Ok(p[i as int])
    } else {
        Err(JomError::OutOfBounds(i))
    }
}

/// The text of the `Utf8` entry at `i`.
pub open spec fn pool_utf8(p: Seq<Constant>, i: u16) -> Result<Seq<char>, JomError> {
    match pool_get(p, i) {
        Ok(Constant::Utf8(s)) => Ok(s),
        Ok(c) => Err(JomError::ConstantPoolIndexError(Expected::Kind(PoolKind::Utf8), constant_kind(c))),
        Err(e) => Err(e),
    }
}

/// The class name of the `Class` entry at `i`.
pub open spec fn pool_class(p: Seq<Constant>, i: u16) -> Result<Seq<char>, JomError> {
    match pool_get(p, i) {
        Ok(Constant::Class(s)) => Ok(s),
        Ok(c) => Err(JomError::ConstantPoolIndexError(Expected::Kind(PoolKind::Class), constant_kind(c))),
        Err(e) => Err(e),
    }
}

pub open spec fn pool_kinds(p: Seq<Constant>) -> Seq<PoolKind> {
    p.map_values(|c: Constant| constant_kind(c))
}

/// A pool as a file can hold it: the slot layout, and a count that fits 16 bits.
pub open spec fn pool_wf(p: Seq<Constant>) -> bool {
    pool_layout(pool_kinds(p)) && p.len() <= 0xFFFF
}

/// The resolved constant pool, indexed from 1; slot 0 is `Unusable`.
pub struct ConstantPool(Vec<ConstantPoolIndex>);

impl View for ConstantPool {
    type V = Seq<Constant>;

    closed spec fn view(&self) -> Seq<Constant> {
        self.0@.map_values(|e: ConstantPoolIndex| e@)
    }
}

impl ConstantPool {
    pub fn from_entries(entries: Vec<ConstantPoolIndex>) -> (r: ConstantPool)
        ensures
            r@ == entries@.map_values(|e: ConstantPoolIndex| e@),
    {
        ConstantPool(entries)
    }

    /// A copy of the pool.
    pub fn duplicate(&self) -> (r: ConstantPool)
        ensures
            r@ == self@,
    {
        let mut v: Vec<ConstantPoolIndex> = Vec::new();
        let mut i: usize = 0;
        while i < self.0.len()
            invariant
                i <= self.0@.len(),
                v@.len() == i,
                forall|j: int| 0 <= j < i ==> (#[trigger] v@[j])@ == self.0@[j]@,
            decreases self.0@.len() - i,
        {
            v.push(self.0[i].duplicate());
            i += 1;
        }
        let r = ConstantPool(v);
        assert(r@ =~= self@);
        r
    }

    /// Whether the pool has the file's slot layout and a count that fits 16 bits.
    pub fn is_well_formed(&self) -> (r: bool)
        ensures
            r == pool_wf(self@),
    {
        let n = self.0.len();
        let ghost k = pool_kinds(self@);
        if n == 0 || n > 0xFFFF {
            return false;
        }
        assert(k[0] == constant_kind(self.0@[0]@));
        if self.0[0].kind() != PoolKind::Unusable {
            return false;
        }
        let mut i: usize = 1;
        while i < n
            invariant
                1 <= i <= n,
                n == self@.len(),
                k == pool_kinds(self@),
                k[0] == PoolKind::Unusable,
                forall|j: int| 1 <= j < i ==> (#[trigger] k[j] == PoolKind::Unusable <==> is_wide_kind(k[j - 1])),
            decreases n - i,
        {
            let cur = self.0[i].kind();
            let prev = self.0[i - 1].kind();
            let prev_wide = prev == PoolKind::Long || prev == PoolKind::Double;
            assert(k[i as int] == cur && k[i - 1] == prev);
            if (cur == PoolKind::Unusable) != prev_wide {
                return false;
            }
            i += 1;
        }
        let last = self.0[n - 1].kind();
        assert(k[n - 1] == last);
        if last == PoolKind::Long || last == PoolKind::Double {
            return false;
        }
        proof {
            assert forall|j: int| 0 <= j < k.len() && is_wide_kind(#[trigger] k[j]) implies j + 1 < k.len() by {
                if j + 1 >= k.len() {
                    assert(j == n - 1);
                }
            }
        }
        true
    }

    pub fn entries(&self) -> (r: &[ConstantPoolIndex])
        ensures
            r@.map_values(|e: ConstantPoolIndex| e@) == self@,
    {
        self.0.as_slice()
    }

    pub fn len(&self) -> (r: usize)
        ensures
            r == self@.len(),
    {
        self.0.len()
    }

    /// Appends an entry.
    pub fn push(&mut self, e: ConstantPoolIndex)
        ensures
            final(self)@ == old(self)@.push(e@),
    {
        self.0.push(e);
        assert(final(self)@ =~= old(self)@.push(e@));
    }

    /// A copy of the entry at `index`.
    pub fn get(&self, index: u16) -> (r: JomResult<ConstantPoolIndex>)
        ensures
            r matches Ok(e) ==> pool_get(self@, index) == Ok::<Constant, JomError>(e@),
            r matches Err(e) ==> pool_get(self@, index) == Err::<Constant, JomError>(e),
    {
        if (index as usize) < self.0.len() {
            Ok(self.0[index as usize].duplicate())
        } else {
            Err(JomError::out_of_bounds(index))
        }
    }

    pub fn get_utf8(&self, index: u16) -> (r: JomResult<String>)
        ensures
            r matches Ok(s) ==> pool_utf8(self@, index) == Ok::<Seq<char>, JomError>(s@),
            r matches Err(e) ==> pool_utf8(self@, index) == Err::<Seq<char>, JomError>(e),
    {
        let e = self.get(index)?;
        e.into_utf8()
    }

    pub fn get_class(&self, index: u16) -> (r: JomResult<String>)
        ensures
            r matches Ok(s) ==> pool_class(self@, index) == Ok::<Seq<char>, JomError>(s@),
            r matches Err(e) ==> pool_class(self@, index) == Err::<Seq<char>, JomError>(e),
    {
        let e = self.get(index)?;
        e.into_class()
    }

    /// The first index that holds `entry`.
    pub fn find(&self, entry: &ConstantPoolIndex) -> (r: JomResult<u16>)
        ensures
            r matches Ok(i) ==> (i as int) < self@.len() && self@[i as int] == entry@
                && forall|j: int| 0 <= j < i ==> self@[j] != entry@,
            r matches Ok(i) ==> first_index(self@, entry@, 0) == Some(i as int),
            r matches Err(e) ==> e == JomError::ValueNotInConstantPool(constant_kind(entry@))
                && forall|j: int| 0 <= j < self@.len() && j <= 0xFFFF ==> self@[j] != entry@,
            r is Err && self@.len() <= 0x10000 ==> first_index(self@, entry@, 0) is None,
    {
        let mut i: usize = 0;
        while i < self.0.len() && i <= 0xFFFF
            invariant
                i <= self@.len(),
                i <= 0x10000,
                forall|j: int| 0 <= j < i ==> self@[j] != entry@,
                first_index(self@, entry@, 0) == first_index(self@, entry@, i as int),
            decreases self@.len() - i,
        {
            if self.0[i].same(entry) {
                return Ok(i as u16);
            }
            i += 1;
        }
        Err(JomError::not_in_cp(entry.kind()))
    }

    pub fn find_utf8(&self, s: String) -> (r: JomResult<u16>)
        ensures
            r matches Ok(i) ==> (i as int) < self@.len() && self@[i as int] == Constant::Utf8(s@)
                && forall|j: int| 0 <= j < i ==> self@[j] != Constant::Utf8(s@),
            r matches Ok(i) ==> first_index(self@, Constant::Utf8(s@), 0) == Some(i as int),
            r matches Err(e) ==> e == JomError::ValueNotInConstantPool(PoolKind::Utf8)
                && forall|j: int| 0 <= j < self@.len() && j <= 0xFFFF ==> self@[j] != Constant::Utf8(s@),
    {
        self.find(&ConstantPoolIndex::Utf8(s))
    }

    pub fn find_class(&self, class: String) -> (r: JomResult<u16>)
        ensures
            r matches Ok(i) ==> (i as int) < self@.len() && self@[i as int] == Constant::Class(class@)
                && forall|j: int| 0 <= j < i ==> self@[j] != Constant::Class(class@),
            r matches Ok(i) ==> first_index(self@, Constant::Class(class@), 0) == Some(i as int),
            r matches Err(e) ==> e == JomError::ValueNotInConstantPool(PoolKind::Class)
                && forall|j: int| 0 <= j < self@.len() && j <= 0xFFFF ==> self@[j] != Constant::Class(class@),
    {
        self.find(&ConstantPoolIndex::Class(class))
    }
}

} // verus!
