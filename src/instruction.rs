use vstd::prelude::*;

use crate::bytes::{be16, be32, lemma_bytes_of_be16, lemma_bytes_of_be32, push_u16, push_u32, read_u32, u16_bytes, u32_bytes};
use crate::error::{JomError, JomResult};

verus! {

/// The element type of a `newarray`.
#[derive(Clone, Copy, Debug, PartialEq, Eq, Structural)]
pub enum AType {
    Boolean,
    Char,
    Float,
    Double,
    Byte,
    Short,
    Int,
    Long,
}

pub open spec fn atype_of(b: u8) -> Option<AType> {
    if b == 4 {
        Some(AType::Boolean)
    } else if b == 5 {
        Some(AType::Char)
    } else if b == 6 {
        Some(AType::Float)
    } else if b == 7 {
        Some(AType::Double)
    } else if b == 8 {
        Some(AType::Byte)
    } else if b == 9 {
        Some(AType::Short)
    } else if b == 10 {
        Some(AType::Int)
    } else if b == 11 {
        Some(AType::Long)
    } else {
        None
    }
}

pub open spec fn atype_byte(t: AType) -> u8 {
    match t {
        AType::Boolean => 4,
        AType::Char => 5,
        AType::Float => 6,
        AType::Double => 7,
        AType::Byte => 8,
        AType::Short => 9,
        AType::Int => 10,
        AType::Long => 11,
    }
}

impl AType {
    pub fn from_u8(b: u8) -> (r: Option<AType>)
        ensures
            r == atype_of(b),
    {
        match b {
            4 => Some(AType::Boolean),
            5 => Some(AType::Char),
            6 => Some(AType::Float),
            7 => Some(AType::Double),
            8 => Some(AType::Byte),
            9 => Some(AType::Short),
            10 => Some(AType::Int),
            11 => Some(AType::Long),
            _ => None,
        }
    }

    pub fn to_u8(&self) -> (r: u8)
        ensures
            r == atype_byte(*self),
            atype_of(r) == Some(*self),
    {
        match self {
            AType::Boolean => 4,
            AType::Char => 5,
            AType::Float => 6,
            AType::Double => 7,
            AType::Byte => 8,
            AType::Short => 9,
            AType::Int => 10,
            AType::Long => 11,
        }
    }
}

/// One bytecode instruction with its operands.
pub enum Instruction {
    Nop,
    AConstNull,
    IConstM1,
    IConst0,
    IConst1,
    IConst2,
    IConst3,
    IConst4,
    IConst5,
    LConst0,
    LConst1,
    FConst0,
    FConst1,
    FConst2,
    DConst0,
    DConst1,
    BiPush(u8),
    Sipush(u16),
    Ldc(u8),
    LdcW(u16),
    Ldc2W(u16),
    ILoad(u8),
    LLoad(u8),
    FLoad(u8),
    Dload(u8),
    ALoad(u8),
    ILoad0,
    ILoad1,
    ILoad2,
    ILoad3,
    LLoad0,
    LLoad1,
    LLoad2,
    LLoad3,
    FLoad0,
    FLoad1,
    FLoad2,
    FLoad3,
    DLoad0,
    DLoad1,
    DLoad2,
    DLoad3,
    ALoad0,
    ALoad1,
    ALoad2,
    ALoad3,
    IALoad,
    LALoad,
    FALoad,
    DALoad,
    AALoad,
    BALoad,
    CALoad,
    SALoad,
    IStore(u8),
    LStore(u8),
    FStore(u8),
    DStore(u8),
    AStore(u8),
    IStore0,
    IStore1,
    IStore2,
    IStore3,
    LStore0,
    LStore1,
    LStore2,
    LStore3,
    FStore0,
    FStore1,
    FStore2,
    FStore3,
    DStore0,
    DStore1,
    DStore2,
    DStore3,
    AStore0,
    AStore1,
    AStore2,
    AStore3,
    IAStore,
    LAStore,
    FAStore,
    DAStore,
    AAStore,
    BAStore,
    CAStore,
    SAStore,
    Pop,
    Pop2,
    Dup,
    DupX1,
    DupX2,
    Dup2,
    Dup2X1,
    Dup2X2,
    Swap,
    IAdd,
    LAdd,
    FAdd,
    DAdd,
    ISub,
    LSub,
    FSub,
    DSub,
    IMul,
    LMul,
    FMul,
    DMul,
    IDiv,
    LDiv,
    FDiv,
    DDiv,
    IRem,
    LRem,
    FRem,
    DRem,
    INeg,
    LNeg,
    FNeg,
    DNeg,
    IShl,
    LShl,
    IShr,
    LShr,
    IUShr,
    LUShr,
    IAnd,
    LAnd,
    IOr,
    LOr,
    IXor,
    LXor,
    IInc(u8, u8),
    I2L,
    I2F,
    I2D,
    L2I,
    L2F,
    L2D,
    F2I,
    F2L,
    F2D,
    D2I,
    D2L,
    D2F,
    I2B,
    I2C,
    I2S,
    LCmp,
    FCmpL,
    FCmpG,
    DCmpL,
    DCmpG,
    IfEq(u16),
    IfNe(u16),
    IfLt(u16),
    IfGe(u16),
    IfGt(u16),
    IfLe(u16),
    IfICmpEq(u16),
    IfICmpNe(u16),
    IfICmpLt(u16),
    IfICmpGe(u16),
    IfICmpGt(u16),
    IfICmpLe(u16),
    IfACmpEq(u16),
    IfACmpNe(u16),
    GoTo(u16),
    Jsr(u16),
    Ret(u8),
    LookupSwitch {
        default: u32,
        npairs: u32,
        pairs: Vec<(i32, i32)>,
    },
    IReturn,
    LReturn,
    FReturn,
    DReturn,
    AReturn,
    Return,
    GetStatic(u16),
    PutStatic(u16),
    GetField(u16),
    PutField(u16),
    InvokeVirtual(u16),
    InvokeSpecial(u16),
    InvokeStatic(u16),
    InvokeInterface(u16, u8),
    InvokeDynamic(u16),
    New(u16),
    NewArray(AType),
    ANewArray(u16),
    ArrayLength,
    AThrow,
    CheckCast(u16),
    InstanceOf(u16),
    MonitorEnter,
    MonitorExit,
    MultiANewArray(u16, u8),
    IfNull(u16),
    IfNonNull(u16),
    GotoW(u32),
    JsrW(u32),
}

/// The operand layout an opcode takes.
#[derive(Clone, Copy, Debug, PartialEq, Eq, Structural)]
pub enum Shape {
    /// No operand.
    Plain,
    /// One byte.
    U8,
    /// One big-endian `u16`.
    U16,
    /// One big-endian `u32`.
    U32,
    /// Two bytes (`iinc`).
    TwoU8,
    /// A `u16` and a byte (`multianewarray`).
    U16U8,
    /// A `u16`, a byte and a reserved zero byte (`invokeinterface`).
    Interface,
    /// A `u16` and two reserved zero bytes (`invokedynamic`).
    Dynamic,
    /// An array type byte (`newarray`).
    NewArray,
    /// Padding, default, count and pairs (`lookupswitch`).
    Switch,
    /// Not modelled: `tableswitch`, `wide`, and opcodes past `jsr_w`.
    Unsupported,
}

pub open spec fn op_shape(op: u8) -> Shape {
    if (0x00 <= op && op <= 0x0f) || (0x1a <= op && op <= 0x35) || (0x3b <= op && op <= 0x83) || (0x85 <= op && op <= 0x98) || (0xac <= op && op <= 0xb1) || (0xbe <= op && op <= 0xbf) || (0xc2 <= op && op <= 0xc3) {
        Shape::Plain
    } else if op == 0x10 || op == 0x12 || (0x15 <= op && op <= 0x19) || (0x36 <= op && op <= 0x3a) || op == 0xa9 {
        Shape::U8
    } else if op == 0x11 || (0x13 <= op && op <= 0x14) || (0x99 <= op && op <= 0xa8) || (0xb2 <= op && op <= 0xb8) || op == 0xbb || op == 0xbd || (0xc0 <= op && op <= 0xc1) || (0xc6 <= op && op <= 0xc7) {
        Shape::U16
    } else if (0xc8 <= op && op <= 0xc9) {
        Shape::U32
    } else if op == 0x84 {
        Shape::TwoU8
    } else if op == 0xc5 {
        Shape::U16U8
    } else if op == 0xb9 {
        Shape::Interface
    } else if op == 0xba {
        Shape::Dynamic
    } else if op == 0xbc {
        Shape::NewArray
    } else if op == 0xab {
        Shape::Switch
    } else {
        Shape::Unsupported
    }
}

pub open spec fn shape_len(s: Shape) -> int {
    match s {
        Shape::Plain => 0,
        Shape::U8 => 1,
        Shape::U16 => 2,
        Shape::U32 => 4,
        Shape::TwoU8 => 2,
        Shape::U16U8 => 3,
        Shape::Interface => 4,
        Shape::Dynamic => 4,
        Shape::NewArray => 1,
        _ => 0,
    }
}

pub fn shape_of(op: u8) -> (r: Shape)
    ensures
        r == op_shape(op),
{
    if (0x00 <= op && op <= 0x0f) || (0x1a <= op && op <= 0x35) || (0x3b <= op && op <= 0x83) || (0x85 <= op && op <= 0x98) || (0xac <= op && op <= 0xb1) || (0xbe <= op && op <= 0xbf) || (0xc2 <= op && op <= 0xc3) {
        Shape::Plain
    } else if op == 0x10 || op == 0x12 || (0x15 <= op && op <= 0x19) || (0x36 <= op && op <= 0x3a) || op == 0xa9 {
        Shape::U8
    } else if op == 0x11 || (0x13 <= op && op <= 0x14) || (0x99 <= op && op <= 0xa8) || (0xb2 <= op && op <= 0xb8) || op == 0xbb || op == 0xbd || (0xc0 <= op && op <= 0xc1) || (0xc6 <= op && op <= 0xc7) {
        Shape::U16
    } else if (0xc8 <= op && op <= 0xc9) {
        Shape::U32
    } else if op == 0x84 {
        Shape::TwoU8
    } else if op == 0xc5 {
        Shape::U16U8
    } else if op == 0xb9 {
        Shape::Interface
    } else if op == 0xba {
        Shape::Dynamic
    } else if op == 0xbc {
        Shape::NewArray
    } else if op == 0xab {
        Shape::Switch
    } else {
        Shape::Unsupported
    }
}

#[verifier::opaque]
pub open spec fn opcode_of(ins: Instruction) -> u8 {
    match ins {
        Instruction::Nop => 0x00,
        Instruction::AConstNull => 0x01,
        Instruction::IConstM1 => 0x02,
        Instruction::IConst0 => 0x03,
        Instruction::IConst1 => 0x04,
        Instruction::IConst2 => 0x05,
        Instruction::IConst3 => 0x06,
        Instruction::IConst4 => 0x07,
        Instruction::IConst5 => 0x08,
        Instruction::LConst0 => 0x09,
        Instruction::LConst1 => 0x0a,
        Instruction::FConst0 => 0x0b,
        Instruction::FConst1 => 0x0c,
        Instruction::FConst2 => 0x0d,
        Instruction::DConst0 => 0x0e,
        Instruction::DConst1 => 0x0f,
        Instruction::BiPush(..) => 0x10,
        Instruction::Sipush(..) => 0x11,
        Instruction::Ldc(..) => 0x12,
        Instruction::LdcW(..) => 0x13,
        Instruction::Ldc2W(..) => 0x14,
        Instruction::ILoad(..) => 0x15,
        Instruction::LLoad(..) => 0x16,
        Instruction::FLoad(..) => 0x17,
        Instruction::Dload(..) => 0x18,
        Instruction::ALoad(..) => 0x19,
        Instruction::ILoad0 => 0x1a,
        Instruction::ILoad1 => 0x1b,
        Instruction::ILoad2 => 0x1c,
        Instruction::ILoad3 => 0x1d,
        Instruction::LLoad0 => 0x1e,
        Instruction::LLoad1 => 0x1f,
        Instruction::LLoad2 => 0x20,
        Instruction::LLoad3 => 0x21,
        Instruction::FLoad0 => 0x22,
        Instruction::FLoad1 => 0x23,
        Instruction::FLoad2 => 0x24,
        Instruction::FLoad3 => 0x25,
        Instruction::DLoad0 => 0x26,
        Instruction::DLoad1 => 0x27,
        Instruction::DLoad2 => 0x28,
        Instruction::DLoad3 => 0x29,
        Instruction::ALoad0 => 0x2a,
        Instruction::ALoad1 => 0x2b,
        Instruction::ALoad2 => 0x2c,
        Instruction::ALoad3 => 0x2d,
        Instruction::IALoad => 0x2e,
        Instruction::LALoad => 0x2f,
        Instruction::FALoad => 0x30,
        Instruction::DALoad => 0x31,
        Instruction::AALoad => 0x32,
        Instruction::BALoad => 0x33,
        Instruction::CALoad => 0x34,
        Instruction::SALoad => 0x35,
        Instruction::IStore(..) => 0x36,
        Instruction::LStore(..) => 0x37,
        Instruction::FStore(..) => 0x38,
        Instruction::DStore(..) => 0x39,
        Instruction::AStore(..) => 0x3a,
        Instruction::IStore0 => 0x3b,
        Instruction::IStore1 => 0x3c,
        Instruction::IStore2 => 0x3d,
        Instruction::IStore3 => 0x3e,
        Instruction::LStore0 => 0x3f,
        Instruction::LStore1 => 0x40,
        Instruction::LStore2 => 0x41,
        Instruction::LStore3 => 0x42,
        Instruction::FStore0 => 0x43,
        Instruction::FStore1 => 0x44,
        Instruction::FStore2 => 0x45,
        Instruction::FStore3 => 0x46,
        Instruction::DStore0 => 0x47,
        Instruction::DStore1 => 0x48,
        Instruction::DStore2 => 0x49,
        Instruction::DStore3 => 0x4a,
        Instruction::AStore0 => 0x4b,
        Instruction::AStore1 => 0x4c,
        Instruction::AStore2 => 0x4d,
        Instruction::AStore3 => 0x4e,
        Instruction::IAStore => 0x4f,
        Instruction::LAStore => 0x50,
        Instruction::FAStore => 0x51,
        Instruction::DAStore => 0x52,
        Instruction::AAStore => 0x53,
        Instruction::BAStore => 0x54,
        Instruction::CAStore => 0x55,
        Instruction::SAStore => 0x56,
        Instruction::Pop => 0x57,
        Instruction::Pop2 => 0x58,
        Instruction::Dup => 0x59,
        Instruction::DupX1 => 0x5a,
        Instruction::DupX2 => 0x5b,
        Instruction::Dup2 => 0x5c,
        Instruction::Dup2X1 => 0x5d,
        Instruction::Dup2X2 => 0x5e,
        Instruction::Swap => 0x5f,
        Instruction::IAdd => 0x60,
        Instruction::LAdd => 0x61,
        Instruction::FAdd => 0x62,
        Instruction::DAdd => 0x63,
        Instruction::ISub => 0x64,
        Instruction::LSub => 0x65,
        Instruction::FSub => 0x66,
        Instruction::DSub => 0x67,
        Instruction::IMul => 0x68,
        Instruction::LMul => 0x69,
        Instruction::FMul => 0x6a,
        Instruction::DMul => 0x6b,
        Instruction::IDiv => 0x6c,
        Instruction::LDiv => 0x6d,
        Instruction::FDiv => 0x6e,
        Instruction::DDiv => 0x6f,
        Instruction::IRem => 0x70,
        Instruction::LRem => 0x71,
        Instruction::FRem => 0x72,
        Instruction::DRem => 0x73,
        Instruction::INeg => 0x74,
        Instruction::LNeg => 0x75,
        Instruction::FNeg => 0x76,
        Instruction::DNeg => 0x77,
        Instruction::IShl => 0x78,
        Instruction::LShl => 0x79,
        Instruction::IShr => 0x7a,
        Instruction::LShr => 0x7b,
        Instruction::IUShr => 0x7c,
        Instruction::LUShr => 0x7d,
        Instruction::IAnd => 0x7e,
        Instruction::LAnd => 0x7f,
        Instruction::IOr => 0x80,
        Instruction::LOr => 0x81,
        Instruction::IXor => 0x82,
        Instruction::LXor => 0x83,
        Instruction::IInc(..) => 0x84,
        Instruction::I2L => 0x85,
        Instruction::I2F => 0x86,
        Instruction::I2D => 0x87,
        Instruction::L2I => 0x88,
        Instruction::L2F => 0x89,
        Instruction::L2D => 0x8a,
        Instruction::F2I => 0x8b,
        Instruction::F2L => 0x8c,
        Instruction::F2D => 0x8d,
        Instruction::D2I => 0x8e,
        Instruction::D2L => 0x8f,
        Instruction::D2F => 0x90,
        Instruction::I2B => 0x91,
        Instruction::I2C => 0x92,
        Instruction::I2S => 0x93,
        Instruction::LCmp => 0x94,
        Instruction::FCmpL => 0x95,
        Instruction::FCmpG => 0x96,
        Instruction::DCmpL => 0x97,
        Instruction::DCmpG => 0x98,
        Instruction::IfEq(..) => 0x99,
        Instruction::IfNe(..) => 0x9a,
        Instruction::IfLt(..) => 0x9b,
        Instruction::IfGe(..) => 0x9c,
        Instruction::IfGt(..) => 0x9d,
        Instruction::IfLe(..) => 0x9e,
        Instruction::IfICmpEq(..) => 0x9f,
        Instruction::IfICmpNe(..) => 0xa0,
        Instruction::IfICmpLt(..) => 0xa1,
        Instruction::IfICmpGe(..) => 0xa2,
        Instruction::IfICmpGt(..) => 0xa3,
        Instruction::IfICmpLe(..) => 0xa4,
        Instruction::IfACmpEq(..) => 0xa5,
        Instruction::IfACmpNe(..) => 0xa6,
        Instruction::GoTo(..) => 0xa7,
        Instruction::Jsr(..) => 0xa8,
        Instruction::Ret(..) => 0xa9,
        Instruction::LookupSwitch { .. } => 0xab,
        Instruction::IReturn => 0xac,
        Instruction::LReturn => 0xad,
        Instruction::FReturn => 0xae,
        Instruction::DReturn => 0xaf,
        Instruction::AReturn => 0xb0,
        Instruction::Return => 0xb1,
        Instruction::GetStatic(..) => 0xb2,
        Instruction::PutStatic(..) => 0xb3,
        Instruction::GetField(..) => 0xb4,
        Instruction::PutField(..) => 0xb5,
        Instruction::InvokeVirtual(..) => 0xb6,
        Instruction::InvokeSpecial(..) => 0xb7,
        Instruction::InvokeStatic(..) => 0xb8,
        Instruction::InvokeInterface(..) => 0xb9,
        Instruction::InvokeDynamic(..) => 0xba,
        Instruction::New(..) => 0xbb,
        Instruction::NewArray(..) => 0xbc,
        Instruction::ANewArray(..) => 0xbd,
        Instruction::ArrayLength => 0xbe,
        Instruction::AThrow => 0xbf,
        Instruction::CheckCast(..) => 0xc0,
        Instruction::InstanceOf(..) => 0xc1,
        Instruction::MonitorEnter => 0xc2,
        Instruction::MonitorExit => 0xc3,
        Instruction::MultiANewArray(..) => 0xc5,
        Instruction::IfNull(..) => 0xc6,
        Instruction::IfNonNull(..) => 0xc7,
        Instruction::GotoW(..) => 0xc8,
        Instruction::JsrW(..) => 0xc9,
    }
}

/// Zero bytes that bring an instruction at `off` to a multiple of four.
pub open spec fn pad_len(off: int) -> int {
    (4 - off % 4) % 4
}

pub open spec fn pairs_bytes(ps: Seq<(i32, i32)>) -> Seq<u8>
    decreases ps.len(),
{
    if ps.len() == 0 {
        Seq::empty()
    } else {
        pairs_bytes(ps.drop_last()) + u32_bytes(ps.last().0 as u32) + u32_bytes(ps.last().1 as u32)
    }
}

/// The operands of a `lookupswitch` whose opcode stands at `off`.
pub open spec fn switch_bytes(off: int, default: u32, npairs: u32, ps: Seq<(i32, i32)>) -> Seq<u8> {
    Seq::new(pad_len(off) as nat, |i: int| 0u8) + u32_bytes(default) + u32_bytes(npairs) + pairs_bytes(ps)
}

/// The operand bytes of `ins` when its opcode stands at `off`.
#[verifier::opaque]
pub open spec fn operand_bytes(ins: Instruction, off: int) -> Seq<u8> {
    match ins {
        Instruction::BiPush(v) => seq![v],
        Instruction::Sipush(v) => u16_bytes(v),
        Instruction::Ldc(v) => seq![v],
        Instruction::LdcW(v) => u16_bytes(v),
        Instruction::Ldc2W(v) => u16_bytes(v),
        Instruction::ILoad(v) => seq![v],
        Instruction::LLoad(v) => seq![v],
        Instruction::FLoad(v) => seq![v],
        Instruction::Dload(v) => seq![v],
        Instruction::ALoad(v) => seq![v],
        Instruction::IStore(v) => seq![v],
        Instruction::LStore(v) => seq![v],
        Instruction::FStore(v) => seq![v],
        Instruction::DStore(v) => seq![v],
        Instruction::AStore(v) => seq![v],
        Instruction::IInc(a, b) => seq![a, b],
        Instruction::IfEq(v) => u16_bytes(v),
        Instruction::IfNe(v) => u16_bytes(v),
        Instruction::IfLt(v) => u16_bytes(v),
        Instruction::IfGe(v) => u16_bytes(v),
        Instruction::IfGt(v) => u16_bytes(v),
        Instruction::IfLe(v) => u16_bytes(v),
        Instruction::IfICmpEq(v) => u16_bytes(v),
        Instruction::IfICmpNe(v) => u16_bytes(v),
        Instruction::IfICmpLt(v) => u16_bytes(v),
        Instruction::IfICmpGe(v) => u16_bytes(v),
        Instruction::IfICmpGt(v) => u16_bytes(v),
        Instruction::IfICmpLe(v) => u16_bytes(v),
        Instruction::IfACmpEq(v) => u16_bytes(v),
        Instruction::IfACmpNe(v) => u16_bytes(v),
        Instruction::GoTo(v) => u16_bytes(v),
        Instruction::Jsr(v) => u16_bytes(v),
        Instruction::Ret(v) => seq![v],
        Instruction::LookupSwitch { default, npairs, pairs } => switch_bytes(off, default, npairs, pairs@),
        Instruction::GetStatic(v) => u16_bytes(v),
        Instruction::PutStatic(v) => u16_bytes(v),
        Instruction::GetField(v) => u16_bytes(v),
        Instruction::PutField(v) => u16_bytes(v),
        Instruction::InvokeVirtual(v) => u16_bytes(v),
        Instruction::InvokeSpecial(v) => u16_bytes(v),
        Instruction::InvokeStatic(v) => u16_bytes(v),
        Instruction::InvokeInterface(a, b) => u16_bytes(a) + seq![b, 0u8],
        Instruction::InvokeDynamic(a) => u16_bytes(a) + seq![0u8, 0u8],
        Instruction::New(v) => u16_bytes(v),
        Instruction::NewArray(t) => seq![atype_byte(t)],
        Instruction::ANewArray(v) => u16_bytes(v),
        Instruction::CheckCast(v) => u16_bytes(v),
        Instruction::InstanceOf(v) => u16_bytes(v),
        Instruction::MultiANewArray(a, b) => u16_bytes(a) + seq![b],
        Instruction::IfNull(v) => u16_bytes(v),
        Instruction::IfNonNull(v) => u16_bytes(v),
        Instruction::GotoW(v) => u32_bytes(v),
        Instruction::JsrW(v) => u32_bytes(v),
        _ => Seq::empty(),
    }
}

/// The bytes of `ins` when it stands at offset `off` of the code.
pub open spec fn instr_bytes(ins: Instruction, off: int) -> Seq<u8> {
    seq![opcode_of(ins)] + operand_bytes(ins, off)
}

impl Instruction {
    pub fn opcode(&self) -> (r: u8)
        ensures
            r == opcode_of(*self),
    {
        proof {
            reveal(opcode_of);
        }
        match self {
            Instruction::Nop => 0x00,
            Instruction::AConstNull => 0x01,
            Instruction::IConstM1 => 0x02,
            Instruction::IConst0 => 0x03,
            Instruction::IConst1 => 0x04,
            Instruction::IConst2 => 0x05,
            Instruction::IConst3 => 0x06,
            Instruction::IConst4 => 0x07,
            Instruction::IConst5 => 0x08,
            Instruction::LConst0 => 0x09,
            Instruction::LConst1 => 0x0a,
            Instruction::FConst0 => 0x0b,
            Instruction::FConst1 => 0x0c,
            Instruction::FConst2 => 0x0d,
            Instruction::DConst0 => 0x0e,
            Instruction::DConst1 => 0x0f,
            Instruction::BiPush(..) => 0x10,
            Instruction::Sipush(..) => 0x11,
            Instruction::Ldc(..) => 0x12,
            Instruction::LdcW(..) => 0x13,
            Instruction::Ldc2W(..) => 0x14,
            Instruction::ILoad(..) => 0x15,
            Instruction::LLoad(..) => 0x16,
            Instruction::FLoad(..) => 0x17,
            Instruction::Dload(..) => 0x18,
            Instruction::ALoad(..) => 0x19,
            Instruction::ILoad0 => 0x1a,
            Instruction::ILoad1 => 0x1b,
            Instruction::ILoad2 => 0x1c,
            Instruction::ILoad3 => 0x1d,
            Instruction::LLoad0 => 0x1e,
            Instruction::LLoad1 => 0x1f,
            Instruction::LLoad2 => 0x20,
            Instruction::LLoad3 => 0x21,
            Instruction::FLoad0 => 0x22,
            Instruction::FLoad1 => 0x23,
            Instruction::FLoad2 => 0x24,
            Instruction::FLoad3 => 0x25,
            Instruction::DLoad0 => 0x26,
            Instruction::DLoad1 => 0x27,
            Instruction::DLoad2 => 0x28,
            Instruction::DLoad3 => 0x29,
            Instruction::ALoad0 => 0x2a,
            Instruction::ALoad1 => 0x2b,
            Instruction::ALoad2 => 0x2c,
            Instruction::ALoad3 => 0x2d,
            Instruction::IALoad => 0x2e,
            Instruction::LALoad => 0x2f,
            Instruction::FALoad => 0x30,
            Instruction::DALoad => 0x31,
            Instruction::AALoad => 0x32,
            Instruction::BALoad => 0x33,
            Instruction::CALoad => 0x34,
            Instruction::SALoad => 0x35,
            Instruction::IStore(..) => 0x36,
            Instruction::LStore(..) => 0x37,
            Instruction::FStore(..) => 0x38,
            Instruction::DStore(..) => 0x39,
            Instruction::AStore(..) => 0x3a,
            Instruction::IStore0 => 0x3b,
            Instruction::IStore1 => 0x3c,
            Instruction::IStore2 => 0x3d,
            Instruction::IStore3 => 0x3e,
            Instruction::LStore0 => 0x3f,
            Instruction::LStore1 => 0x40,
            Instruction::LStore2 => 0x41,
            Instruction::LStore3 => 0x42,
            Instruction::FStore0 => 0x43,
            Instruction::FStore1 => 0x44,
            Instruction::FStore2 => 0x45,
            Instruction::FStore3 => 0x46,
            Instruction::DStore0 => 0x47,
            Instruction::DStore1 => 0x48,
            Instruction::DStore2 => 0x49,
            Instruction::DStore3 => 0x4a,
            Instruction::AStore0 => 0x4b,
            Instruction::AStore1 => 0x4c,
            Instruction::AStore2 => 0x4d,
            Instruction::AStore3 => 0x4e,
            Instruction::IAStore => 0x4f,
            Instruction::LAStore => 0x50,
            Instruction::FAStore => 0x51,
            Instruction::DAStore => 0x52,
            Instruction::AAStore => 0x53,
            Instruction::BAStore => 0x54,
            Instruction::CAStore => 0x55,
            Instruction::SAStore => 0x56,
            Instruction::Pop => 0x57,
            Instruction::Pop2 => 0x58,
            Instruction::Dup => 0x59,
            Instruction::DupX1 => 0x5a,
            Instruction::DupX2 => 0x5b,
            Instruction::Dup2 => 0x5c,
            Instruction::Dup2X1 => 0x5d,
            Instruction::Dup2X2 => 0x5e,
            Instruction::Swap => 0x5f,
            Instruction::IAdd => 0x60,
            Instruction::LAdd => 0x61,
            Instruction::FAdd => 0x62,
            Instruction::DAdd => 0x63,
            Instruction::ISub => 0x64,
            Instruction::LSub => 0x65,
            Instruction::FSub => 0x66,
            Instruction::DSub => 0x67,
            Instruction::IMul => 0x68,
            Instruction::LMul => 0x69,
            Instruction::FMul => 0x6a,
            Instruction::DMul => 0x6b,
            Instruction::IDiv => 0x6c,
            Instruction::LDiv => 0x6d,
            Instruction::FDiv => 0x6e,
            Instruction::DDiv => 0x6f,
            Instruction::IRem => 0x70,
            Instruction::LRem => 0x71,
            Instruction::FRem => 0x72,
            Instruction::DRem => 0x73,
            Instruction::INeg => 0x74,
            Instruction::LNeg => 0x75,
            Instruction::FNeg => 0x76,
            Instruction::DNeg => 0x77,
            Instruction::IShl => 0x78,
            Instruction::LShl => 0x79,
            Instruction::IShr => 0x7a,
            Instruction::LShr => 0x7b,
            Instruction::IUShr => 0x7c,
            Instruction::LUShr => 0x7d,
            Instruction::IAnd => 0x7e,
            Instruction::LAnd => 0x7f,
            Instruction::IOr => 0x80,
            Instruction::LOr => 0x81,
            Instruction::IXor => 0x82,
            Instruction::LXor => 0x83,
            Instruction::IInc(..) => 0x84,
            Instruction::I2L => 0x85,
            Instruction::I2F => 0x86,
            Instruction::I2D => 0x87,
            Instruction::L2I => 0x88,
            Instruction::L2F => 0x89,
            Instruction::L2D => 0x8a,
            Instruction::F2I => 0x8b,
            Instruction::F2L => 0x8c,
            Instruction::F2D => 0x8d,
            Instruction::D2I => 0x8e,
            Instruction::D2L => 0x8f,
            Instruction::D2F => 0x90,
            Instruction::I2B => 0x91,
            Instruction::I2C => 0x92,
            Instruction::I2S => 0x93,
            Instruction::LCmp => 0x94,
            Instruction::FCmpL => 0x95,
            Instruction::FCmpG => 0x96,
            Instruction::DCmpL => 0x97,
            Instruction::DCmpG => 0x98,
            Instruction::IfEq(..) => 0x99,
            Instruction::IfNe(..) => 0x9a,
            Instruction::IfLt(..) => 0x9b,
            Instruction::IfGe(..) => 0x9c,
            Instruction::IfGt(..) => 0x9d,
            Instruction::IfLe(..) => 0x9e,
            Instruction::IfICmpEq(..) => 0x9f,
            Instruction::IfICmpNe(..) => 0xa0,
            Instruction::IfICmpLt(..) => 0xa1,
            Instruction::IfICmpGe(..) => 0xa2,
            Instruction::IfICmpGt(..) => 0xa3,
            Instruction::IfICmpLe(..) => 0xa4,
            Instruction::IfACmpEq(..) => 0xa5,
            Instruction::IfACmpNe(..) => 0xa6,
            Instruction::GoTo(..) => 0xa7,
            Instruction::Jsr(..) => 0xa8,
            Instruction::Ret(..) => 0xa9,
            Instruction::LookupSwitch { .. } => 0xab,
            Instruction::IReturn => 0xac,
            Instruction::LReturn => 0xad,
            Instruction::FReturn => 0xae,
            Instruction::DReturn => 0xaf,
            Instruction::AReturn => 0xb0,
            Instruction::Return => 0xb1,
            Instruction::GetStatic(..) => 0xb2,
            Instruction::PutStatic(..) => 0xb3,
            Instruction::GetField(..) => 0xb4,
            Instruction::PutField(..) => 0xb5,
            Instruction::InvokeVirtual(..) => 0xb6,
            Instruction::InvokeSpecial(..) => 0xb7,
            Instruction::InvokeStatic(..) => 0xb8,
            Instruction::InvokeInterface(..) => 0xb9,
            Instruction::InvokeDynamic(..) => 0xba,
            Instruction::New(..) => 0xbb,
            Instruction::NewArray(..) => 0xbc,
            Instruction::ANewArray(..) => 0xbd,
            Instruction::ArrayLength => 0xbe,
            Instruction::AThrow => 0xbf,
            Instruction::CheckCast(..) => 0xc0,
            Instruction::InstanceOf(..) => 0xc1,
            Instruction::MonitorEnter => 0xc2,
            Instruction::MonitorExit => 0xc3,
            Instruction::MultiANewArray(..) => 0xc5,
            Instruction::IfNull(..) => 0xc6,
            Instruction::IfNonNull(..) => 0xc7,
            Instruction::GotoW(..) => 0xc8,
            Instruction::JsrW(..) => 0xc9,
        }
    }
}

fn plain_instruction(op: u8) -> (r: Instruction)
    requires
        op_shape(op) == Shape::Plain,
    ensures
        opcode_of(r) == op,
        forall|off: int| #[trigger] operand_bytes(r, off) == Seq::<u8>::empty(),
{
    proof {
        reveal(opcode_of);
        reveal(operand_bytes);
    }
    match op {
        0x00 => Instruction::Nop,
        0x01 => Instruction::AConstNull,
        0x02 => Instruction::IConstM1,
        0x03 => Instruction::IConst0,
        0x04 => Instruction::IConst1,
        0x05 => Instruction::IConst2,
        0x06 => Instruction::IConst3,
        0x07 => Instruction::IConst4,
        0x08 => Instruction::IConst5,
        0x09 => Instruction::LConst0,
        0x0a => Instruction::LConst1,
        0x0b => Instruction::FConst0,
        0x0c => Instruction::FConst1,
        0x0d => Instruction::FConst2,
        0x0e => Instruction::DConst0,
        0x0f => Instruction::DConst1,
        0x1a => Instruction::ILoad0,
        0x1b => Instruction::ILoad1,
        0x1c => Instruction::ILoad2,
        0x1d => Instruction::ILoad3,
        0x1e => Instruction::LLoad0,
        0x1f => Instruction::LLoad1,
        0x20 => Instruction::LLoad2,
        0x21 => Instruction::LLoad3,
        0x22 => Instruction::FLoad0,
        0x23 => Instruction::FLoad1,
        0x24 => Instruction::FLoad2,
        0x25 => Instruction::FLoad3,
        0x26 => Instruction::DLoad0,
        0x27 => Instruction::DLoad1,
        0x28 => Instruction::DLoad2,
        0x29 => Instruction::DLoad3,
        0x2a => Instruction::ALoad0,
        0x2b => Instruction::ALoad1,
        0x2c => Instruction::ALoad2,
        0x2d => Instruction::ALoad3,
        0x2e => Instruction::IALoad,
        0x2f => Instruction::LALoad,
        0x30 => Instruction::FALoad,
        0x31 => Instruction::DALoad,
        0x32 => Instruction::AALoad,
        0x33 => Instruction::BALoad,
        0x34 => Instruction::CALoad,
        0x35 => Instruction::SALoad,
        0x3b => Instruction::IStore0,
        0x3c => Instruction::IStore1,
        0x3d => Instruction::IStore2,
        0x3e => Instruction::IStore3,
        0x3f => Instruction::LStore0,
        0x40 => Instruction::LStore1,
        0x41 => Instruction::LStore2,
        0x42 => Instruction::LStore3,
        0x43 => Instruction::FStore0,
        0x44 => Instruction::FStore1,
        0x45 => Instruction::FStore2,
        0x46 => Instruction::FStore3,
        0x47 => Instruction::DStore0,
        0x48 => Instruction::DStore1,
        0x49 => Instruction::DStore2,
        0x4a => Instruction::DStore3,
        0x4b => Instruction::AStore0,
        0x4c => Instruction::AStore1,
        0x4d => Instruction::AStore2,
        0x4e => Instruction::AStore3,
        0x4f => Instruction::IAStore,
        0x50 => Instruction::LAStore,
        0x51 => Instruction::FAStore,
        0x52 => Instruction::DAStore,
        0x53 => Instruction::AAStore,
        0x54 => Instruction::BAStore,
        0x55 => Instruction::CAStore,
        0x56 => Instruction::SAStore,
        0x57 => Instruction::Pop,
        0x58 => Instruction::Pop2,
        0x59 => Instruction::Dup,
        0x5a => Instruction::DupX1,
        0x5b => Instruction::DupX2,
        0x5c => Instruction::Dup2,
        0x5d => Instruction::Dup2X1,
        0x5e => Instruction::Dup2X2,
        0x5f => Instruction::Swap,
        0x60 => Instruction::IAdd,
        0x61 => Instruction::LAdd,
        0x62 => Instruction::FAdd,
        0x63 => Instruction::DAdd,
        0x64 => Instruction::ISub,
        0x65 => Instruction::LSub,
        0x66 => Instruction::FSub,
        0x67 => Instruction::DSub,
        0x68 => Instruction::IMul,
        0x69 => Instruction::LMul,
        0x6a => Instruction::FMul,
        0x6b => Instruction::DMul,
        0x6c => Instruction::IDiv,
        0x6d => Instruction::LDiv,
        0x6e => Instruction::FDiv,
        0x6f => Instruction::DDiv,
        0x70 => Instruction::IRem,
        0x71 => Instruction::LRem,
        0x72 => Instruction::FRem,
        0x73 => Instruction::DRem,
        0x74 => Instruction::INeg,
        0x75 => Instruction::LNeg,
        0x76 => Instruction::FNeg,
        0x77 => Instruction::DNeg,
        0x78 => Instruction::IShl,
        0x79 => Instruction::LShl,
        0x7a => Instruction::IShr,
        0x7b => Instruction::LShr,
        0x7c => Instruction::IUShr,
        0x7d => Instruction::LUShr,
        0x7e => Instruction::IAnd,
        0x7f => Instruction::LAnd,
        0x80 => Instruction::IOr,
        0x81 => Instruction::LOr,
        0x82 => Instruction::IXor,
        0x83 => Instruction::LXor,
        0x85 => Instruction::I2L,
        0x86 => Instruction::I2F,
        0x87 => Instruction::I2D,
        0x88 => Instruction::L2I,
        0x89 => Instruction::L2F,
        0x8a => Instruction::L2D,
        0x8b => Instruction::F2I,
        0x8c => Instruction::F2L,
        0x8d => Instruction::F2D,
        0x8e => Instruction::D2I,
        0x8f => Instruction::D2L,
        0x90 => Instruction::D2F,
        0x91 => Instruction::I2B,
        0x92 => Instruction::I2C,
        0x93 => Instruction::I2S,
        0x94 => Instruction::LCmp,
        0x95 => Instruction::FCmpL,
        0x96 => Instruction::FCmpG,
        0x97 => Instruction::DCmpL,
        0x98 => Instruction::DCmpG,
        0xac => Instruction::IReturn,
        0xad => Instruction::LReturn,
        0xae => Instruction::FReturn,
        0xaf => Instruction::DReturn,
        0xb0 => Instruction::AReturn,
        0xb1 => Instruction::Return,
        0xbe => Instruction::ArrayLength,
        0xbf => Instruction::AThrow,
        0xc2 => Instruction::MonitorEnter,
        _ => Instruction::MonitorExit,
    }
}

fn u8_instruction(op: u8, v: u8) -> (r: Instruction)
    requires
        op_shape(op) == Shape::U8,
    ensures
        opcode_of(r) == op,
        forall|off: int| #[trigger] operand_bytes(r, off) == seq![v],
{
    proof {
        reveal(opcode_of);
        reveal(operand_bytes);
    }
    match op {
        0x10 => Instruction::BiPush(v),
        0x12 => Instruction::Ldc(v),
        0x15 => Instruction::ILoad(v),
        0x16 => Instruction::LLoad(v),
        0x17 => Instruction::FLoad(v),
        0x18 => Instruction::Dload(v),
        0x19 => Instruction::ALoad(v),
        0x36 => Instruction::IStore(v),
        0x37 => Instruction::LStore(v),
        0x38 => Instruction::FStore(v),
        0x39 => Instruction::DStore(v),
        0x3a => Instruction::AStore(v),
        _ => Instruction::Ret(v),
    }
}

fn u16_instruction(op: u8, v: u16) -> (r: Instruction)
    requires
        op_shape(op) == Shape::U16,
    ensures
        opcode_of(r) == op,
        forall|off: int| #[trigger] operand_bytes(r, off) == u16_bytes(v),
{
    proof {
        reveal(opcode_of);
        reveal(operand_bytes);
    }
    match op {
        0x11 => Instruction::Sipush(v),
        0x13 => Instruction::LdcW(v),
        0x14 => Instruction::Ldc2W(v),
        0x99 => Instruction::IfEq(v),
        0x9a => Instruction::IfNe(v),
        0x9b => Instruction::IfLt(v),
        0x9c => Instruction::IfGe(v),
        0x9d => Instruction::IfGt(v),
        0x9e => Instruction::IfLe(v),
        0x9f => Instruction::IfICmpEq(v),
        0xa0 => Instruction::IfICmpNe(v),
        0xa1 => Instruction::IfICmpLt(v),
        0xa2 => Instruction::IfICmpGe(v),
        0xa3 => Instruction::IfICmpGt(v),
        0xa4 => Instruction::IfICmpLe(v),
        0xa5 => Instruction::IfACmpEq(v),
        0xa6 => Instruction::IfACmpNe(v),
        0xa7 => Instruction::GoTo(v),
        0xa8 => Instruction::Jsr(v),
        0xb2 => Instruction::GetStatic(v),
        0xb3 => Instruction::PutStatic(v),
        0xb4 => Instruction::GetField(v),
        0xb5 => Instruction::PutField(v),
        0xb6 => Instruction::InvokeVirtual(v),
        0xb7 => Instruction::InvokeSpecial(v),
        0xb8 => Instruction::InvokeStatic(v),
        0xbb => Instruction::New(v),
        0xbd => Instruction::ANewArray(v),
        0xc0 => Instruction::CheckCast(v),
        0xc1 => Instruction::InstanceOf(v),
        0xc6 => Instruction::IfNull(v),
        _ => Instruction::IfNonNull(v),
    }
}

fn u32_instruction(op: u8, v: u32) -> (r: Instruction)
    requires
        op_shape(op) == Shape::U32,
    ensures
        opcode_of(r) == op,
        forall|off: int| #[trigger] operand_bytes(r, off) == u32_bytes(v),
{
    proof {
        reveal(opcode_of);
        reveal(operand_bytes);
    }
    match op {
        0xc8 => Instruction::GotoW(v),
        _ => Instruction::JsrW(v),
    }
}


/// Why the `lookupswitch` at `pos` cannot be read, if it cannot.
pub open spec fn switch_error(code: Seq<u8>, pos: int) -> Option<JomError> {
    let q = pos + 1 + pad_len(pos);
    if q + 8 > code.len() {
        Some(JomError::Malformed)
    } else if exists|i: int| pos + 1 <= i < q && code[i] != 0u8 {
        Some(JomError::Malformed)
    } else if q + 8 + 8 * be32(code, q + 4) > code.len() {
        Some(JomError::Malformed)
    } else {
        None
    }
}

/// How many bytes the instruction at `pos` takes, read from its opcode and operands.
pub open spec fn instr_len_at(code: Seq<u8>, pos: int) -> int {
    if op_shape(code[pos]) == Shape::Switch {
        let q = pos + 1 + pad_len(pos);
        q + 8 + 8 * be32(code, q + 4) - pos
    } else {
        1 + shape_len(op_shape(code[pos]))
    }
}

/// Why decoding the instructions from `pos` on fails, if it does.
pub open spec fn stream_error_from(code: Seq<u8>, pos: int) -> Option<JomError>
    decreases code.len() - pos,
{
    if pos < 0 || pos >= code.len() {
        None
    } else {
        match decode_error(code, pos) {
            Some(e) => Some(e),
            None => if instr_len_at(code, pos) > 0 {
                stream_error_from(code, pos + instr_len_at(code, pos))
            } else {
                None
            },
        }
    }
}

/// Why decoding a whole code array fails, if it does.
pub open spec fn stream_error(code: Seq<u8>) -> Option<JomError> {
    if code.len() > u32::MAX {
        Some(JomError::TooLarge)
    } else {
        stream_error_from(code, 0)
    }
}

/// Why the instruction at `pos` cannot be read, if it cannot.
pub open spec fn decode_error(code: Seq<u8>, pos: int) -> Option<JomError> {
    if pos < 0 || pos >= code.len() {
        Some(JomError::Malformed)
    } else {
        let op = code[pos];
        let s = op_shape(op);
        if s == Shape::Unsupported {
            Some(JomError::UnsupportedOpcode(op))
        } else if s == Shape::Switch {
            switch_error(code, pos)
        } else if pos + 1 + shape_len(s) > code.len() {
            Some(JomError::Malformed)
        } else if s == Shape::Interface && code[pos + 4] != 0u8 {
            Some(JomError::Malformed)
        } else if s == Shape::Dynamic && (code[pos + 3] != 0u8 || code[pos + 4] != 0u8) {
            Some(JomError::Malformed)
        } else if s == Shape::NewArray && atype_of(code[pos + 1]) is None {
            Some(JomError::Malformed)
        } else {
            None
        }
    }
}

proof fn lemma_u32_i32_round_trip(x: u32)
    ensures
        ((x as i32) as u32) == x,
{
    assert(((x as i32) as u32) == x) by (bit_vector);
}

proof fn lemma_switch_instr_bytes(ins: Instruction, off: int)
    requires
        ins is LookupSwitch,
    ensures
        instr_bytes(ins, off) == seq![0xabu8] + switch_bytes(off, ins->default, ins->npairs, ins->pairs@),
{
    reveal(opcode_of);
    reveal(operand_bytes);
}

proof fn lemma_switch_decoded(code: Seq<u8>, pos: int, q: int, default: u32, npairs: u32, ps: Seq<(i32, i32)>)
    requires
        0 <= pos < code.len(),
        op_shape(code[pos]) == Shape::Switch,
        q == pos + 1 + pad_len(pos),
        q + 8 + 8 * npairs <= code.len(),
        forall|j: int| pos + 1 <= j < q ==> code[j] == 0u8,
        npairs == be32(code, q + 4),
        default == be32(code, q),
        code.subrange(q + 8, q + 8 + 8 * npairs) == pairs_bytes(ps),
    ensures
        decode_error(code, pos) is None,
        code.subrange(pos, q + 8 + 8 * npairs) == seq![0xabu8] + switch_bytes(pos, default, npairs, ps),
{
    let end = q + 8 + 8 * npairs;
    assert(code[pos] == 0xabu8);
    lemma_bytes_of_be32(code, q);
    lemma_bytes_of_be32(code, q + 4);
    assert(code.subrange(pos + 1, q) =~= Seq::new(pad_len(pos) as nat, |i: int| 0u8));
    assert(code.subrange(pos, end) =~= seq![code[pos]] + code.subrange(pos + 1, q)
        + code.subrange(q, q + 4) + code.subrange(q + 4, q + 8) + code.subrange(q + 8, end));
}

fn decode_lookupswitch(code: &[u8], pos: usize) -> (r: JomResult<(Instruction, usize)>)
    requires
        pos < code@.len(),
        op_shape(code@[pos as int]) == Shape::Switch,
    ensures
        r matches Ok((ins, end)) ==> decode_error(code@, pos as int) is None && pos < end <= code@.len()
            && code@.subrange(pos as int, end as int) == instr_bytes(ins, pos as int)
            && end == pos + instr_len_at(code@, pos as int) && switch_counted(ins),
        r matches Err(e) ==> decode_error(code@, pos as int) == Some(e),
{
    let len = code.len();
    let pad: usize = (4 - pos % 4) % 4;
    if len - pos - 1 < pad || len - pos - 1 - pad < 8 {
        return Err(JomError::Malformed);
    }
    let q = pos + 1 + pad;
    let mut k: usize = pos + 1;
    while k < q
        invariant
            pos + 1 <= k <= q,
            q + 8 <= len,
            q == pos + 1 + pad_len(pos as int),
            pos < len,
            op_shape(code@[pos as int]) == Shape::Switch,
            len == code@.len(),
            forall|i: int| pos + 1 <= i < k ==> code@[i] == 0u8,
        decreases q - k,
    {
        if code[k] != 0 {
            assert(pos + 1 <= k < pos + 1 + pad_len(pos as int) && code@[k as int] != 0u8);
            return Err(JomError::Malformed);
        }
        k += 1;
    }
    let default = match read_u32(code, q) {
        Some(v) => v,
        None => return Err(JomError::Malformed),
    };
    let npairs = match read_u32(code, q + 4) {
        Some(v) => v,
        None => return Err(JomError::Malformed),
    };
    if (len - (q + 8)) / 8 < npairs as usize {
        proof {
            assert(q + 8 + 8 * npairs > len) by (nonlinear_arith)
                requires
                    (len - (q + 8)) / 8 < npairs as int,
                    q + 8 <= len;
        }
        return Err(JomError::Malformed);
    }
    proof {
        assert(q + 8 + 8 * npairs <= len) by (nonlinear_arith)
            requires
                (len - (q + 8)) / 8 >= npairs as int,
                q + 8 <= len;
    }
    let mut pairs: Vec<(i32, i32)> = Vec::new();
    let mut i: usize = 0;
    while i < npairs as usize
        invariant
            i <= npairs,
            q + 8 + 8 * npairs <= len,
            q == pos + 1 + pad_len(pos as int),
            pos < len,
            op_shape(code@[pos as int]) == Shape::Switch,
            forall|j: int| pos + 1 <= j < q ==> code@[j] == 0u8,
            npairs == be32(code@, q + 4),
            default == be32(code@, q as int),
            len == code@.len(),
            pairs@.len() == i,
            code@.subrange(q + 8, q + 8 + 8 * i) == pairs_bytes(pairs@),
        decreases npairs - i,
    {
        let at = q + 8 + 8 * i;
        assert(at + 8 <= len) by (nonlinear_arith)
            requires
                at == q + 8 + 8 * i,
                i < npairs,
                q + 8 + 8 * npairs <= len;
        let a = match read_u32(code, at) {
            Some(v) => v,
            None => return Err(JomError::Malformed),
        };
        let b = match read_u32(code, at + 4) {
            Some(v) => v,
            None => return Err(JomError::Malformed),
        };
        let ghost old_pairs = pairs@;
        pairs.push((#[verifier::truncate] (a as i32), #[verifier::truncate] (b as i32)));
        proof {
            lemma_u32_i32_round_trip(a);
            lemma_u32_i32_round_trip(b);
            lemma_bytes_of_be32(code@, at as int);
            lemma_bytes_of_be32(code@, at + 4);
            assert(pairs@.drop_last() =~= old_pairs);
            assert(code@.subrange(q + 8, at + 8) =~= code@.subrange(q + 8, at as int) + code@.subrange(at as int, at + 4)
                + code@.subrange(at + 4, at + 8));
        }
        i += 1;
    }
    let end = q + 8 + 8 * (npairs as usize);
    let ghost ps = pairs@;
    let ins = Instruction::LookupSwitch { default, npairs, pairs };
    proof {
        lemma_switch_decoded(code@, pos as int, q as int, default, npairs, ps);
        lemma_switch_instr_bytes(ins, pos as int);
    }
    Ok((ins, end))
}

/// Reads the instruction whose opcode stands at `pos` of the code; returns it
/// with the offset after it.
pub fn decode_instruction(code: &[u8], pos: usize) -> (r: JomResult<(Instruction, usize)>)
    ensures
        r matches Ok((ins, end)) ==> decode_error(code@, pos as int) is None && pos < end <= code@.len()
            && code@.subrange(pos as int, end as int) == instr_bytes(ins, pos as int)
            && end == pos + instr_len_at(code@, pos as int) && switch_counted(ins),
        r matches Err(e) ==> decode_error(code@, pos as int) == Some(e),
{
    proof {
        reveal(opcode_of);
        reveal(operand_bytes);
    }
    let len = code.len();
    if pos >= len {
        return Err(JomError::Malformed);
    }
    let op = code[pos];
    let s = shape_of(op);
    if s == Shape::Unsupported {
        return Err(JomError::UnsupportedOpcode(op));
    }
    if s == Shape::Switch {
        return decode_lookupswitch(code, pos);
    }
    let w: usize = match s {
        Shape::U8 | Shape::NewArray => 1,
        Shape::U16 | Shape::TwoU8 => 2,
        Shape::U16U8 => 3,
        Shape::U32 | Shape::Interface | Shape::Dynamic => 4,
        _ => 0,
    };
    assert(w == shape_len(s));
    if len - (pos + 1) < w {
        return Err(JomError::Malformed);
    }
    let p = pos + 1;
    let end = p + w;
    let ins = match s {
        Shape::Plain => plain_instruction(op),
        Shape::U8 => u8_instruction(op, code[p]),
        Shape::U16 => {
            proof {
                lemma_bytes_of_be16(code@, p as int);
            }
            u16_instruction(op, be16_at(code, p))
        },
        Shape::U32 => {
            proof {
                lemma_bytes_of_be32(code@, p as int);
            }
            u32_instruction(op, be32_at(code, p))
        },
        Shape::TwoU8 => Instruction::IInc(code[p], code[p + 1]),
        Shape::U16U8 => {
            proof {
                lemma_bytes_of_be16(code@, p as int);
            }
            Instruction::MultiANewArray(be16_at(code, p), code[p + 2])
        },
        Shape::Interface => {
            if code[p + 3] != 0 {
                return Err(JomError::Malformed);
            }
            proof {
                lemma_bytes_of_be16(code@, p as int);
            }
            Instruction::InvokeInterface(be16_at(code, p), code[p + 2])
        },
        Shape::Dynamic => {
            if code[p + 2] != 0 || code[p + 3] != 0 {
                return Err(JomError::Malformed);
            }
            proof {
                lemma_bytes_of_be16(code@, p as int);
            }
            Instruction::InvokeDynamic(be16_at(code, p))
        },
        _ => match AType::from_u8(code[p]) {
            Some(t) => Instruction::NewArray(t),
            None => return Err(JomError::Malformed),
        },
    };
    assert(code@.subrange(pos as int, end as int) =~= seq![op] + code@.subrange(p as int, end as int));
    assert(code@.subrange(p as int, end as int) =~= operand_bytes(ins, pos as int));
    Ok((ins, end))
}

fn be16_at(code: &[u8], p: usize) -> (r: u16)
    requires
        p + 2 <= code@.len(),
    ensures
        r == be16(code@, p as int),
{
    (code[p] as u16) * 256 + code[p + 1] as u16
}

fn be32_at(code: &[u8], p: usize) -> (r: u32)
    requires
        p + 4 <= code@.len(),
    ensures
        r == be32(code@, p as int),
{
    let x = (code[p] as u32) * 256 + code[p + 1] as u32;
    let x = x * 256 + code[p + 2] as u32;
    x * 256 + code[p + 3] as u32
}


fn write_pairs(out: &mut Vec<u8>, pairs: &Vec<(i32, i32)>)
    ensures
        final(out)@ == old(out)@ + pairs_bytes(pairs@),
{
    let mut i: usize = 0;
    while i < pairs.len()
        invariant
            i <= pairs@.len(),
            out@ == old(out)@ + pairs_bytes(pairs@.subrange(0, i as int)),
        decreases pairs@.len() - i,
    {
        let ghost before = out@;
        let (a, b) = pairs[i];
        push_u32(out, #[verifier::truncate] (a as u32));
        push_u32(out, #[verifier::truncate] (b as u32));
        proof {
            assert(pairs@.subrange(0, i + 1).drop_last() =~= pairs@.subrange(0, i as int));
            assert(out@ =~= old(out)@ + pairs_bytes(pairs@.subrange(0, i + 1)));
        }
        i += 1;
    }
    assert(pairs@.subrange(0, pairs@.len() as int) =~= pairs@);
}

fn write_switch(out: &mut Vec<u8>, off: usize, default: u32, npairs: u32, pairs: &Vec<(i32, i32)>)
    ensures
        final(out)@ == old(out)@ + switch_bytes(off as int, default, npairs, pairs@),
{
    let pad: usize = (4 - off % 4) % 4;
    let mut k: usize = 0;
    while k < pad
        invariant
            k <= pad,
            pad == pad_len(off as int),
            out@ == old(out)@ + Seq::new(k as nat, |i: int| 0u8),
        decreases pad - k,
    {
        out.push(0u8);
        k += 1;
        assert(out@ =~= old(out)@ + Seq::new(k as nat, |i: int| 0u8));
    }
    let ghost o1 = out@;
    push_u32(out, default);
    push_u32(out, npairs);
    write_pairs(out, pairs);
    assert(out@ =~= old(out)@ + switch_bytes(off as int, default, npairs, pairs@));
}

/// Appends the bytes of `ins`, standing at offset `off` of the code.
pub fn write_instruction(out: &mut Vec<u8>, ins: &Instruction, off: usize)
    ensures
        final(out)@ == old(out)@ + instr_bytes(*ins, off as int),
{
    proof {
        reveal(opcode_of);
        reveal(operand_bytes);
    }
    out.push(ins.opcode());
    let ghost o1 = out@;
    match ins {
        Instruction::BiPush(v)
        | Instruction::Ldc(v)
        | Instruction::ILoad(v)
        | Instruction::LLoad(v)
        | Instruction::FLoad(v)
        | Instruction::Dload(v)
        | Instruction::ALoad(v)
        | Instruction::IStore(v)
        | Instruction::LStore(v)
        | Instruction::FStore(v)
        | Instruction::DStore(v)
        | Instruction::AStore(v)
        | Instruction::Ret(v) => {
            out.push(*v);
        },
        Instruction::Sipush(v)
        | Instruction::LdcW(v)
        | Instruction::Ldc2W(v)
        | Instruction::IfEq(v)
        | Instruction::IfNe(v)
        | Instruction::IfLt(v)
        | Instruction::IfGe(v)
        | Instruction::IfGt(v)
        | Instruction::IfLe(v)
        | Instruction::IfICmpEq(v)
        | Instruction::IfICmpNe(v)
        | Instruction::IfICmpLt(v)
        | Instruction::IfICmpGe(v)
        | Instruction::IfICmpGt(v)
        | Instruction::IfICmpLe(v)
        | Instruction::IfACmpEq(v)
        | Instruction::IfACmpNe(v)
        | Instruction::GoTo(v)
        | Instruction::Jsr(v)
        | Instruction::GetStatic(v)
        | Instruction::PutStatic(v)
        | Instruction::GetField(v)
        | Instruction::PutField(v)
        | Instruction::InvokeVirtual(v)
        | Instruction::InvokeSpecial(v)
        | Instruction::InvokeStatic(v)
        | Instruction::New(v)
        | Instruction::ANewArray(v)
        | Instruction::CheckCast(v)
        | Instruction::InstanceOf(v)
        | Instruction::IfNull(v)
        | Instruction::IfNonNull(v) => {
            push_u16(out, *v);
        },
        Instruction::GotoW(v)
        | Instruction::JsrW(v) => {
            push_u32(out, *v);
        },
        Instruction::IInc(a, b) => {
            out.push(*a);
            out.push(*b);
        },
        Instruction::MultiANewArray(a, b) => {
            push_u16(out, *a);
            out.push(*b);
        },
        Instruction::InvokeInterface(a, b) => {
            push_u16(out, *a);
            out.push(*b);
            out.push(0u8);
        },
        Instruction::InvokeDynamic(a) => {
            push_u16(out, *a);
            out.push(0u8);
            out.push(0u8);
        },
        Instruction::NewArray(t) => {
            out.push(t.to_u8());
        },
        Instruction::LookupSwitch { default, npairs, pairs } => {
            write_switch(out, off, *default, *npairs, pairs);
        },
        _ => {},
    }
    assert(out@.subrange(o1.len() as int, out@.len() as int) =~= operand_bytes(*ins, off as int));
    assert(out@ =~= old(out)@ + instr_bytes(*ins, off as int));
}

/// The bytes of a sequence of instructions, each at its recorded offset.
pub open spec fn stream_bytes(s: Seq<(u32, Instruction)>) -> Seq<u8>
    decreases s.len(),
{
    if s.len() == 0 {
        Seq::empty()
    } else {
        stream_bytes(s.drop_last()) + instr_bytes(s.last().1, s.last().0 as int)
    }
}

/// A `lookupswitch` records as many pairs as its count says.
pub open spec fn switch_counted(ins: Instruction) -> bool {
    ins matches Instruction::LookupSwitch { npairs, pairs, .. } ==> npairs as int == pairs@.len()
}

/// Every `lookupswitch` of the sequence records as many pairs as its count says.
pub open spec fn switches_counted(s: Seq<(u32, Instruction)>) -> bool {
    forall|i: int| 0 <= i < s.len() ==> switch_counted(#[trigger] s[i].1)
}

/// Each instruction's recorded offset is where its bytes begin.
pub open spec fn offsets_placed(s: Seq<(u32, Instruction)>) -> bool {
    forall|i: int| 0 <= i < s.len() ==> (#[trigger] s[i]).0 as int == stream_bytes(s.subrange(0, i)).len()
}

/// Decodes a whole code array into instructions tagged with their offsets.
#[verifier::rlimit(40)]
pub fn decode_instructions(code: &[u8]) -> (r: JomResult<Vec<(u32, Instruction)>>)
    ensures
        r matches Ok(v) ==> stream_error(code@) is None && stream_bytes(v@) == code@ && offsets_placed(v@) && switches_counted(v@),
        r matches Err(e) ==> stream_error(code@) == Some(e),
{
    if code.len() > u32::MAX as usize {
        return Err(JomError::TooLarge);
    }
    let mut v: Vec<(u32, Instruction)> = Vec::new();
    let mut pos: usize = 0;
    while pos < code.len()
        invariant
            pos <= code@.len() <= u32::MAX,
            stream_bytes(v@) == code@.subrange(0, pos as int),
            offsets_placed(v@),
            switches_counted(v@),
            stream_error(code@) == stream_error_from(code@, pos as int),
        decreases code@.len() - pos,
    {
        let (ins, end) = match decode_instruction(code, pos) {
            Ok(x) => x,
            Err(e) => return Err(e),
        };
        let ghost before = v@;
        v.push((pos as u32, ins));
        proof {
            assert(v@.drop_last() =~= before);
            assert forall|i: int| 0 <= i < v@.len() implies switch_counted(#[trigger] v@[i].1) by {
                if i < before.len() {
                    assert(v@[i] == before[i]);
                }
            }
            assert(code@.subrange(0, end as int) =~= code@.subrange(0, pos as int) + code@.subrange(pos as int, end as int));
            assert forall|i: int| 0 <= i < v@.len() implies (#[trigger] v@[i]).0 as int == stream_bytes(v@.subrange(0, i)).len() by {
                if i < before.len() {
                    assert(v@.subrange(0, i) =~= before.subrange(0, i));
                } else {
                    assert(v@.subrange(0, i) =~= before);
                }
            }
        }
        pos = end;
    }
    assert(code@.subrange(0, code@.len() as int) =~= code@);
    Ok(v)
}

/// Encodes instructions, each at its recorded offset.
pub fn encode_instructions(instrs: &Vec<(u32, Instruction)>) -> (r: Vec<u8>)
    ensures
        r@ == stream_bytes(instrs@),
{
    let mut out: Vec<u8> = Vec::new();
    let mut i: usize = 0;
    while i < instrs.len()
        invariant
            i <= instrs@.len(),
            out@ == stream_bytes(instrs@.subrange(0, i as int)),
        decreases instrs@.len() - i,
    {
        let (off, ins) = &instrs[i];
        write_instruction(&mut out, ins, *off as usize);
        proof {
            assert(instrs@.subrange(0, i + 1).drop_last() =~= instrs@.subrange(0, i as int));
        }
        i += 1;
    }
    assert(instrs@.subrange(0, instrs@.len() as int) =~= instrs@);
    out
}

/// A `lookupswitch` is padded with zero bytes from its own offset to the
/// next multiple of four; its default offset follows the padding.
pub proof fn lemma_lookupswitch_alignment(off: int, default: u32, npairs: u32, pairs: Seq<(i32, i32)>)
    requires
        0 <= off,
    ensures
        0 <= pad_len(off) < 4,
        (off + pad_len(off)) % 4 == 0,
        switch_bytes(off, default, npairs, pairs).subrange(0, pad_len(off)) == Seq::new(pad_len(off) as nat, |i: int| 0u8),
        switch_bytes(off, default, npairs, pairs).subrange(pad_len(off), pad_len(off) + 4) == u32_bytes(default),
{
    let b = switch_bytes(off, default, npairs, pairs);
    assert(b.subrange(0, pad_len(off)) =~= Seq::new(pad_len(off) as nat, |i: int| 0u8));
    assert(b.subrange(pad_len(off), pad_len(off) + 4) =~= u32_bytes(default));
}

} // verus!
