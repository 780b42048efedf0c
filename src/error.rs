use vstd::prelude::*;

verus! {

/// The kinds of entry a constant pool slot can hold.
#[derive(Clone, Copy, Debug, PartialEq, Eq, Structural)]
pub enum PoolKind {
    Utf8,
    Integer,
    Float,
    Long,
    Double,
    Class,
    String,
    Fieldref,
    Methodref,
    InterfaceMethodref,
    NameAndType,
    MethodHandle,
    MethodType,
    Dynamic,
    InvokeDynamic,
    Module,
    Package,
    Unusable,
}

/// What a dereferenced pool index was required to hold.
#[derive(Clone, Copy, Debug, PartialEq, Eq, Structural)]
pub enum Expected {
    /// Exactly one kind.
    Kind(PoolKind),
    /// A `Methodref` or an `InterfaceMethodref`.
    MethodOrInterfaceMethod,
    /// An `Integer`, `Float`, `Long`, `Double` or `String` (a field's constant value).
    Loadable,
}

/// The single error a failed decode or encode reports.
#[derive(Clone, Copy, Debug, PartialEq, Eq, Structural)]
pub enum JomError {
    /// Bad magic, truncated input, a bad tag or an invalid length prefix.
    Malformed,
    /// Text that is not valid modified UTF-8.
    InvalidText,
    /// A dereferenced pool index held the wrong kind of entry.
    ConstantPoolIndexError(Expected, PoolKind),
    /// An entry of this kind was looked up for writing and is not in the pool.
    ValueNotInConstantPool(PoolKind),
    /// A pool slot whose references lead back to the slot itself.
    ConstantPoolCycle(usize),
    /// A pool index past the end of the pool.
    OutOfBounds(u16),
    /// An opcode this codec does not model (`tableswitch`, `wide`, or one past the table).
    UnsupportedOpcode(u8),
    /// A pool, table or payload too large for its length prefix.
    TooLarge,
}

pub type JomResult<T> = Result<T, JomError>;

pub open spec fn kind_name(k: PoolKind) -> Seq<char> {
    match k {
        PoolKind::Utf8 => "Utf8"@,
        PoolKind::Integer => "Integer"@,
        PoolKind::Float => "Float"@,
        PoolKind::Long => "Long"@,
        PoolKind::Double => "Double"@,
        PoolKind::Class => "Class"@,
        PoolKind::String => "String"@,
        PoolKind::Fieldref => "Fieldref"@,
        PoolKind::Methodref => "Methodref"@,
        PoolKind::InterfaceMethodref => "InterfaceMethodref"@,
        PoolKind::NameAndType => "NameAndType"@,
        PoolKind::MethodHandle => "MethodHandle"@,
        PoolKind::MethodType => "MethodType"@,
        PoolKind::Dynamic => "Dynamic"@,
        PoolKind::InvokeDynamic => "InvokeDynamic"@,
        PoolKind::Module => "Module"@,
        PoolKind::Package => "Package"@,
        PoolKind::Unusable => "Unusable"@,
    }
}

impl PoolKind {
    /// The kind's name as error messages print it.
    pub fn name(&self) -> (r: &'static str)
        ensures
            r@ == kind_name(*self),
    {
        match self {
            PoolKind::Utf8 => "Utf8",
            PoolKind::Integer => "Integer",
            PoolKind::Float => "Float",
            PoolKind::Long => "Long",
            PoolKind::Double => "Double",
            PoolKind::Class => "Class",
            PoolKind::String => "String",
            PoolKind::Fieldref => "Fieldref",
            PoolKind::Methodref => "Methodref",
            PoolKind::InterfaceMethodref => "InterfaceMethodref",
            PoolKind::NameAndType => "NameAndType",
            PoolKind::MethodHandle => "MethodHandle",
            PoolKind::MethodType => "MethodType",
            PoolKind::Dynamic => "Dynamic",
            PoolKind::InvokeDynamic => "InvokeDynamic",
            PoolKind::Module => "Module",
            PoolKind::Package => "Package",
            PoolKind::Unusable => "Unusable",
        }
    }
}

impl JomError {
    pub fn new_cp_index(expected: PoolKind, found: PoolKind) -> (r: Self)
        ensures
            r == JomError::ConstantPoolIndexError(Expected::Kind(expected), found),
    {
        JomError::ConstantPoolIndexError(Expected::Kind(expected), found)
    }

    pub fn not_in_cp(kind: PoolKind) -> (r: Self)
        ensures
            r == JomError::ValueNotInConstantPool(kind),
    {
        JomError::ValueNotInConstantPool(kind)
    }

    pub fn out_of_bounds(index: u16) -> (r: Self)
        ensures
            r == JomError::OutOfBounds(index),
    {
        JomError::OutOfBounds(index)
    }
}

} // verus!
