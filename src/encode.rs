use vstd::prelude::*;

use crate::attribute::{CodeAttribute, ConstantValue, FieldAttribute, LineNumberTableIndex, LocalVariableTableIndex};
use crate::bytes::{push_all, push_u16, push_u32, u16_bytes, u32_bytes};
use crate::class_file::{ClassAttribute, ClassFile};
use crate::code::{Code, Exception};
use crate::constant_pool::{pool_wf, Constant, ConstantPool, ConstantPoolIndex};
use crate::error::{JomError, JomResult};
use crate::field::FieldInfo;
use crate::instruction::{encode_instructions, stream_bytes};
use crate::method::{MethodAttribute, MethodInfo};
use crate::pool_builder::{in_pool, intern_model, intern_seq, lemma_model_prefix, lemma_prefix_trans, PoolBuilder};
use crate::pool_writer::{index_bytes, pool_bytes, then_bytes, write_pool};

verus! {

/// Each item's bytes in turn, or the first error.
pub open spec fn seq_bytes<A>(s: Seq<A>, f: spec_fn(A) -> Result<Seq<u8>, JomError>) -> Result<Seq<u8>, JomError>
    decreases s.len(),
{
    if s.len() == 0 {
        Ok(Seq::empty())
    } else {
        then_bytes(seq_bytes(s.drop_last(), f), f(s.last()))
    }
}

/// A 16-bit count, then each item's bytes.
pub open spec fn counted<A>(s: Seq<A>, f: spec_fn(A) -> Result<Seq<u8>, JomError>) -> Result<Seq<u8>, JomError> {
    if s.len() <= 0xFFFF {
        then_bytes(Ok(u16_bytes(s.len() as u16)), seq_bytes(s, f))
    } else {
        Err(JomError::TooLarge)
    }
}

/// A payload preceded by its 32-bit length.
pub open spec fn sized(r: Result<Seq<u8>, JomError>) -> Result<Seq<u8>, JomError> {
    match r {
        Ok(x) => if x.len() <= u32::MAX {
            Ok(u32_bytes(x.len() as u32) + x)
        } else {
            Err(JomError::TooLarge)
        },
        Err(e) => Err(e),
    }
}

/// An attribute record: the index of its name, then its sized payload.
pub open spec fn record(p: Seq<Constant>, name: Seq<char>, payload: Result<Seq<u8>, JomError>) -> Result<Seq<u8>, JomError> {
    then_bytes(index_bytes(p, Constant::Utf8(name)), sized(payload))
}

pub open spec fn field_attr_bytes(p: Seq<Constant>, a: FieldAttribute) -> Result<Seq<u8>, JomError> {
    match a {
        FieldAttribute::ConstantValue(v) => record(p, "ConstantValue"@, index_bytes(p, v@)),
        FieldAttribute::Synthetic => record(p, "Synthetic"@, Ok(Seq::empty())),
        FieldAttribute::Deprecated => record(p, "Deprecated"@, Ok(Seq::empty())),
        FieldAttribute::Signature(s) => record(p, "Signature"@, index_bytes(p, Constant::Utf8(s@))),
        FieldAttribute::Unknown(n, b) => record(p, n@, Ok(b@)),
    }
}

pub open spec fn line_row(r: LineNumberTableIndex) -> Result<Seq<u8>, JomError> {
    Ok(u16_bytes(r.start_pc) + u16_bytes(r.line_number))
}

pub open spec fn local_row(p: Seq<Constant>, r: LocalVariableTableIndex) -> Result<Seq<u8>, JomError> {
    then_bytes(Ok(u16_bytes(r.start_pc) + u16_bytes(r.length)), then_bytes(index_bytes(p, Constant::Utf8(r.name@)),
        then_bytes(index_bytes(p, Constant::Utf8(r.descriptor@)), Ok(u16_bytes(r.index)))))
}

pub open spec fn code_attr_bytes(p: Seq<Constant>, a: CodeAttribute) -> Result<Seq<u8>, JomError> {
    match a {
        CodeAttribute::LineNumberTable(t) => record(p, "LineNumberTable"@, counted(t@, |r: LineNumberTableIndex| line_row(r))),
        CodeAttribute::LocalVariableTable(t) => record(p, "LocalVariableTable"@, counted(t@, |r: LocalVariableTableIndex| local_row(p, r))),
        CodeAttribute::LocalVariableTypeTable(t) => record(p, "LocalVariableTypeTable"@, counted(t@, |r: LocalVariableTableIndex| local_row(p, r))),
        CodeAttribute::Unknown(n, b) => record(p, n@, Ok(b@)),
    }
}

pub open spec fn catch_bytes(p: Seq<Constant>, c: Option<String>) -> Result<Seq<u8>, JomError> {
    match c {
        None => Ok(u16_bytes(0)),
        Some(s) => index_bytes(p, Constant::Class(s@)),
    }
}

pub open spec fn exception_row(p: Seq<Constant>, x: Exception) -> Result<Seq<u8>, JomError> {
    then_bytes(Ok(u16_bytes(x.start_pc) + u16_bytes(x.end_pc) + u16_bytes(x.handler_pc)), catch_bytes(p, x.catch_type))
}

/// The payload of a `Code` attribute.
pub open spec fn code_bytes(p: Seq<Constant>, c: Code) -> Result<Seq<u8>, JomError> {
    let ins = stream_bytes(c.instructions@);
    if ins.len() > u32::MAX {
        Err(JomError::TooLarge)
    } else {
        then_bytes(Ok(u16_bytes(c.max_stack) + u16_bytes(c.max_locals) + u32_bytes(ins.len() as u32) + ins),
            then_bytes(counted(c.exception_table@, |x: Exception| exception_row(p, x)),
                counted(c.attributes@, |a: CodeAttribute| code_attr_bytes(p, a))))
    }
}

pub open spec fn method_attr_bytes(p: Seq<Constant>, a: MethodAttribute) -> Result<Seq<u8>, JomError> {
    match a {
        MethodAttribute::Code(c) => record(p, "Code"@, code_bytes(p, c)),
        MethodAttribute::Synthetic => record(p, "Synthetic"@, Ok(Seq::empty())),
        MethodAttribute::Deprecated => record(p, "Deprecated"@, Ok(Seq::empty())),
        MethodAttribute::Signature(s) => record(p, "Signature"@, index_bytes(p, Constant::Utf8(s@))),
        MethodAttribute::Unknown(n, b) => record(p, n@, Ok(b@)),
    }
}

pub open spec fn member_head(p: Seq<Constant>, flags: u16, name: Seq<char>, descriptor: Seq<char>) -> Result<Seq<u8>, JomError> {
    then_bytes(Ok(u16_bytes(flags)), then_bytes(index_bytes(p, Constant::Utf8(name)), index_bytes(p, Constant::Utf8(descriptor))))
}

pub open spec fn field_bytes(p: Seq<Constant>, f: FieldInfo) -> Result<Seq<u8>, JomError> {
    then_bytes(member_head(p, f.access_flags, f.name@, f.descriptor@), counted(f.attributes@, |a: FieldAttribute| field_attr_bytes(p, a)))
}

pub open spec fn method_bytes(p: Seq<Constant>, m: MethodInfo) -> Result<Seq<u8>, JomError> {
    then_bytes(member_head(p, m.access_flags, m.name@, m.descriptor@), counted(m.attributes@, |a: MethodAttribute| method_attr_bytes(p, a)))
}

pub open spec fn class_head(cf: ClassFile) -> Seq<u8> {
    u32_bytes(0xCAFE_BABEu32) + u16_bytes(cf.minor) + u16_bytes(cf.major)
}

/// The bytes of `cf` written against the pool `p`: every name and value is
/// written as the index of its first occurrence in `p`.
pub open spec fn class_bytes(cf: ClassFile, p: Seq<Constant>) -> Result<Seq<u8>, JomError> {
    then_bytes(Ok(class_head(cf)), then_bytes(pool_bytes(p), then_bytes(Ok(u16_bytes(cf.access_flags)),
        then_bytes(index_bytes(p, Constant::Class(cf.this_class@)), then_bytes(index_bytes(p, Constant::Class(cf.super_class@)),
        then_bytes(counted(cf.interfaces@, |s: String| index_bytes(p, Constant::Class(s@))),
        then_bytes(counted(cf.fields@, |f: FieldInfo| field_bytes(p, f)), then_bytes(counted(cf.methods@, |m: MethodInfo| method_bytes(p, m)),
        class_attrs_bytes(p, cf)))))))))
}

/// The table of class attributes, written when the class carries one or has attributes.
pub open spec fn class_attrs_bytes(p: Seq<Constant>, cf: ClassFile) -> Result<Seq<u8>, JomError> {
    if cf.has_attribute_table || cf.attributes@.len() > 0 {
        counted(cf.attributes@, |a: ClassAttribute| class_attr_bytes(p, a))
    } else {
        Ok(Seq::empty())
    }
}

pub open spec fn class_attr_bytes(p: Seq<Constant>, a: ClassAttribute) -> Result<Seq<u8>, JomError> {
    record(p, a.name@, Ok(a.info@))
}

proof fn lemma_seq_bytes_err<A>(s: Seq<A>, f: spec_fn(A) -> Result<Seq<u8>, JomError>, k: int, e: JomError)
    requires
        0 <= k <= s.len(),
        seq_bytes(s.subrange(0, k), f) == Err::<Seq<u8>, JomError>(e),
    ensures
        seq_bytes(s, f) == Err::<Seq<u8>, JomError>(e),
    decreases s.len() - k,
{
    if k == s.len() {
        assert(s.subrange(0, k) =~= s);
    } else {
        assert(s.subrange(0, k + 1).drop_last() =~= s.subrange(0, k));
        lemma_seq_bytes_err(s, f, k + 1, e);
    }
}

proof fn lemma_seq_bytes_step<A>(s: Seq<A>, f: spec_fn(A) -> Result<Seq<u8>, JomError>, k: int)
    requires
        0 <= k < s.len(),
    ensures
        seq_bytes(s.subrange(0, k + 1), f) == then_bytes(seq_bytes(s.subrange(0, k), f), f(s[k])),
{
    assert(s.subrange(0, k + 1).drop_last() =~= s.subrange(0, k));
}

proof fn lemma_seq_bytes_all<A>(s: Seq<A>, f: spec_fn(A) -> Result<Seq<u8>, JomError>)
    ensures
        seq_bytes(s.subrange(0, s.len() as int), f) == seq_bytes(s, f),
{
    assert(s.subrange(0, s.len() as int) =~= s);
}

/// Appends `payload` preceded by its 32-bit length.
fn write_sized(out: &mut Vec<u8>, payload: &Vec<u8>) -> (r: JomResult<()>)
    ensures
        r is Ok ==> sized(Ok(payload@)) is Ok && final(out)@ == old(out)@ + sized(Ok(payload@))->Ok_0,
        r matches Err(e) ==> sized(Ok(payload@)) == Err::<Seq<u8>, JomError>(e),
{
    if payload.len() > u32::MAX as usize {
        return Err(JomError::TooLarge);
    }
    push_u32(out, payload.len() as u32);
    push_all(out, payload.as_slice());
    Ok(())
}

/// Appends the index of the first occurrence of `c`.
fn write_ref(out: &mut Vec<u8>, p: &ConstantPool, c: ConstantPoolIndex) -> (r: JomResult<()>)
    requires
        pool_wf(p@),
    ensures
        r is Ok ==> index_bytes(p@, c@) is Ok && final(out)@ == old(out)@ + index_bytes(p@, c@)->Ok_0,
        r matches Err(e) ==> index_bytes(p@, c@) == Err::<Seq<u8>, JomError>(e),
{
    let i = p.find(&c)?;
    push_u16(out, i);
    Ok(())
}

fn write_field_attrs(out: &mut Vec<u8>, p: &ConstantPool, s: &Vec<FieldAttribute>) -> (r: JomResult<()>)
    requires
        pool_wf(p@),
    ensures
        r is Ok ==> counted(s@, |a: FieldAttribute| field_attr_bytes(p@, a)) is Ok && final(out)@ == old(out)@ + counted(s@, |a: FieldAttribute| field_attr_bytes(p@, a))->Ok_0,
        r matches Err(e) ==> counted(s@, |a: FieldAttribute| field_attr_bytes(p@, a)) == Err::<Seq<u8>, JomError>(e),
{
    let ghost f = |a: FieldAttribute| field_attr_bytes(p@, a);
    let ghost o = old(out)@;
    if s.len() > 0xFFFF {
        return Err(JomError::TooLarge);
    }
    push_u16(out, s.len() as u16);
    let ghost acc = Seq::<u8>::empty();
    let mut i: usize = 0;
    while i < s.len()
        invariant
            i <= s@.len() <= 0xFFFF,
            pool_wf(p@),
            f == |a: FieldAttribute| field_attr_bytes(p@, a),
            out@ == o + u16_bytes(s@.len() as u16) + acc,
            seq_bytes(s@.subrange(0, i as int), f) == Ok::<Seq<u8>, JomError>(acc),
        decreases s@.len() - i,
    {
        proof {
            lemma_seq_bytes_step(s@, f, i as int);
        }
        match write_field_attr(out, p, &s[i]) {
            Ok(()) => {},
            Err(e) => {
                proof {
                    lemma_seq_bytes_err(s@, f, i + 1, e);
                }
                return Err(e);
            },
        }
        proof {
            let x = (field_attr_bytes(p@, s@[i as int]))->Ok_0;
            assert(out@ =~= o + u16_bytes(s@.len() as u16) + (acc + x));
            acc = acc + x;
        }
        i += 1;
    }
    proof {
        lemma_seq_bytes_all(s@, f);
    }
    assert(out@ =~= o + (u16_bytes(s@.len() as u16) + acc));
    Ok(())
}

fn write_line_rows(out: &mut Vec<u8>, p: &ConstantPool, s: &Vec<LineNumberTableIndex>) -> (r: JomResult<()>)
    requires
        pool_wf(p@),
    ensures
        r is Ok ==> counted(s@, |r: LineNumberTableIndex| line_row(r)) is Ok && final(out)@ == old(out)@ + counted(s@, |r: LineNumberTableIndex| line_row(r))->Ok_0,
        r matches Err(e) ==> counted(s@, |r: LineNumberTableIndex| line_row(r)) == Err::<Seq<u8>, JomError>(e),
{
    let ghost f = |r: LineNumberTableIndex| line_row(r);
    let ghost o = old(out)@;
    if s.len() > 0xFFFF {
        return Err(JomError::TooLarge);
    }
    push_u16(out, s.len() as u16);
    let ghost acc = Seq::<u8>::empty();
    let mut i: usize = 0;
    while i < s.len()
        invariant
            i <= s@.len() <= 0xFFFF,
            pool_wf(p@),
            f == |r: LineNumberTableIndex| line_row(r),
            out@ == o + u16_bytes(s@.len() as u16) + acc,
            seq_bytes(s@.subrange(0, i as int), f) == Ok::<Seq<u8>, JomError>(acc),
        decreases s@.len() - i,
    {
        proof {
            lemma_seq_bytes_step(s@, f, i as int);
        }
        match write_line_row(out, &s[i]) {
            Ok(()) => {},
            Err(e) => {
                proof {
                    lemma_seq_bytes_err(s@, f, i + 1, e);
                }
                return Err(e);
            },
        }
        proof {
            let x = (line_row(s@[i as int]))->Ok_0;
            assert(out@ =~= o + u16_bytes(s@.len() as u16) + (acc + x));
            acc = acc + x;
        }
        i += 1;
    }
    proof {
        lemma_seq_bytes_all(s@, f);
    }
    assert(out@ =~= o + (u16_bytes(s@.len() as u16) + acc));
    Ok(())
}

fn write_local_rows(out: &mut Vec<u8>, p: &ConstantPool, s: &Vec<LocalVariableTableIndex>) -> (r: JomResult<()>)
    requires
        pool_wf(p@),
    ensures
        r is Ok ==> counted(s@, |r: LocalVariableTableIndex| local_row(p@, r)) is Ok && final(out)@ == old(out)@ + counted(s@, |r: LocalVariableTableIndex| local_row(p@, r))->Ok_0,
        r matches Err(e) ==> counted(s@, |r: LocalVariableTableIndex| local_row(p@, r)) == Err::<Seq<u8>, JomError>(e),
{
    let ghost f = |r: LocalVariableTableIndex| local_row(p@, r);
    let ghost o = old(out)@;
    if s.len() > 0xFFFF {
        return Err(JomError::TooLarge);
    }
    push_u16(out, s.len() as u16);
    let ghost acc = Seq::<u8>::empty();
    let mut i: usize = 0;
    while i < s.len()
        invariant
            i <= s@.len() <= 0xFFFF,
            pool_wf(p@),
            f == |r: LocalVariableTableIndex| local_row(p@, r),
            out@ == o + u16_bytes(s@.len() as u16) + acc,
            seq_bytes(s@.subrange(0, i as int), f) == Ok::<Seq<u8>, JomError>(acc),
        decreases s@.len() - i,
    {
        proof {
            lemma_seq_bytes_step(s@, f, i as int);
        }
        match write_local_row(out, p, &s[i]) {
            Ok(()) => {},
            Err(e) => {
                proof {
                    lemma_seq_bytes_err(s@, f, i + 1, e);
                }
                return Err(e);
            },
        }
        proof {
            let x = (local_row(p@, s@[i as int]))->Ok_0;
            assert(out@ =~= o + u16_bytes(s@.len() as u16) + (acc + x));
            acc = acc + x;
        }
        i += 1;
    }
    proof {
        lemma_seq_bytes_all(s@, f);
    }
    assert(out@ =~= o + (u16_bytes(s@.len() as u16) + acc));
    Ok(())
}

fn write_exception_rows(out: &mut Vec<u8>, p: &ConstantPool, s: &Vec<Exception>) -> (r: JomResult<()>)
    requires
        pool_wf(p@),
    ensures
        r is Ok ==> counted(s@, |x: Exception| exception_row(p@, x)) is Ok && final(out)@ == old(out)@ + counted(s@, |x: Exception| exception_row(p@, x))->Ok_0,
        r matches Err(e) ==> counted(s@, |x: Exception| exception_row(p@, x)) == Err::<Seq<u8>, JomError>(e),
{
    let ghost f = |x: Exception| exception_row(p@, x);
    let ghost o = old(out)@;
    if s.len() > 0xFFFF {
        return Err(JomError::TooLarge);
    }
    push_u16(out, s.len() as u16);
    let ghost acc = Seq::<u8>::empty();
    let mut i: usize = 0;
    while i < s.len()
        invariant
            i <= s@.len() <= 0xFFFF,
            pool_wf(p@),
            f == |x: Exception| exception_row(p@, x),
            out@ == o + u16_bytes(s@.len() as u16) + acc,
            seq_bytes(s@.subrange(0, i as int), f) == Ok::<Seq<u8>, JomError>(acc),
        decreases s@.len() - i,
    {
        proof {
            lemma_seq_bytes_step(s@, f, i as int);
        }
        match write_exception_row(out, p, &s[i]) {
            Ok(()) => {},
            Err(e) => {
                proof {
                    lemma_seq_bytes_err(s@, f, i + 1, e);
                }
                return Err(e);
            },
        }
        proof {
            let x = (exception_row(p@, s@[i as int]))->Ok_0;
            assert(out@ =~= o + u16_bytes(s@.len() as u16) + (acc + x));
            acc = acc + x;
        }
        i += 1;
    }
    proof {
        lemma_seq_bytes_all(s@, f);
    }
    assert(out@ =~= o + (u16_bytes(s@.len() as u16) + acc));
    Ok(())
}

fn write_code_attrs(out: &mut Vec<u8>, p: &ConstantPool, s: &Vec<CodeAttribute>) -> (r: JomResult<()>)
    requires
        pool_wf(p@),
    ensures
        r is Ok ==> counted(s@, |a: CodeAttribute| code_attr_bytes(p@, a)) is Ok && final(out)@ == old(out)@ + counted(s@, |a: CodeAttribute| code_attr_bytes(p@, a))->Ok_0,
        r matches Err(e) ==> counted(s@, |a: CodeAttribute| code_attr_bytes(p@, a)) == Err::<Seq<u8>, JomError>(e),
{
    let ghost f = |a: CodeAttribute| code_attr_bytes(p@, a);
    let ghost o = old(out)@;
    if s.len() > 0xFFFF {
        return Err(JomError::TooLarge);
    }
    push_u16(out, s.len() as u16);
    let ghost acc = Seq::<u8>::empty();
    let mut i: usize = 0;
    while i < s.len()
        invariant
            i <= s@.len() <= 0xFFFF,
            pool_wf(p@),
            f == |a: CodeAttribute| code_attr_bytes(p@, a),
            out@ == o + u16_bytes(s@.len() as u16) + acc,
            seq_bytes(s@.subrange(0, i as int), f) == Ok::<Seq<u8>, JomError>(acc),
        decreases s@.len() - i,
    {
        proof {
            lemma_seq_bytes_step(s@, f, i as int);
        }
        match write_code_attr(out, p, &s[i]) {
            Ok(()) => {},
            Err(e) => {
                proof {
                    lemma_seq_bytes_err(s@, f, i + 1, e);
                }
                return Err(e);
            },
        }
        proof {
            let x = (code_attr_bytes(p@, s@[i as int]))->Ok_0;
            assert(out@ =~= o + u16_bytes(s@.len() as u16) + (acc + x));
            acc = acc + x;
        }
        i += 1;
    }
    proof {
        lemma_seq_bytes_all(s@, f);
    }
    assert(out@ =~= o + (u16_bytes(s@.len() as u16) + acc));
    Ok(())
}

fn write_method_attrs(out: &mut Vec<u8>, p: &ConstantPool, s: &Vec<MethodAttribute>) -> (r: JomResult<()>)
    requires
        pool_wf(p@),
    ensures
        r is Ok ==> counted(s@, |a: MethodAttribute| method_attr_bytes(p@, a)) is Ok && final(out)@ == old(out)@ + counted(s@, |a: MethodAttribute| method_attr_bytes(p@, a))->Ok_0,
        r matches Err(e) ==> counted(s@, |a: MethodAttribute| method_attr_bytes(p@, a)) == Err::<Seq<u8>, JomError>(e),
{
    let ghost f = |a: MethodAttribute| method_attr_bytes(p@, a);
    let ghost o = old(out)@;
    if s.len() > 0xFFFF {
        return Err(JomError::TooLarge);
    }
    push_u16(out, s.len() as u16);
    let ghost acc = Seq::<u8>::empty();
    let mut i: usize = 0;
    while i < s.len()
        invariant
            i <= s@.len() <= 0xFFFF,
            pool_wf(p@),
            f == |a: MethodAttribute| method_attr_bytes(p@, a),
            out@ == o + u16_bytes(s@.len() as u16) + acc,
            seq_bytes(s@.subrange(0, i as int), f) == Ok::<Seq<u8>, JomError>(acc),
        decreases s@.len() - i,
    {
        proof {
            lemma_seq_bytes_step(s@, f, i as int);
        }
        match write_method_attr(out, p, &s[i]) {
            Ok(()) => {},
            Err(e) => {
                proof {
                    lemma_seq_bytes_err(s@, f, i + 1, e);
                }
                return Err(e);
            },
        }
        proof {
            let x = (method_attr_bytes(p@, s@[i as int]))->Ok_0;
            assert(out@ =~= o + u16_bytes(s@.len() as u16) + (acc + x));
            acc = acc + x;
        }
        i += 1;
    }
    proof {
        lemma_seq_bytes_all(s@, f);
    }
    assert(out@ =~= o + (u16_bytes(s@.len() as u16) + acc));
    Ok(())
}

fn write_interfaces(out: &mut Vec<u8>, p: &ConstantPool, s: &Vec<String>) -> (r: JomResult<()>)
    requires
        pool_wf(p@),
    ensures
        r is Ok ==> counted(s@, |c: String| index_bytes(p@, Constant::Class(c@))) is Ok && final(out)@ == old(out)@ + counted(s@, |c: String| index_bytes(p@, Constant::Class(c@)))->Ok_0,
        r matches Err(e) ==> counted(s@, |c: String| index_bytes(p@, Constant::Class(c@))) == Err::<Seq<u8>, JomError>(e),
{
    let ghost f = |c: String| index_bytes(p@, Constant::Class(c@));
    let ghost o = old(out)@;
    if s.len() > 0xFFFF {
        return Err(JomError::TooLarge);
    }
    push_u16(out, s.len() as u16);
    let ghost acc = Seq::<u8>::empty();
    let mut i: usize = 0;
    while i < s.len()
        invariant
            i <= s@.len() <= 0xFFFF,
            pool_wf(p@),
            f == |c: String| index_bytes(p@, Constant::Class(c@)),
            out@ == o + u16_bytes(s@.len() as u16) + acc,
            seq_bytes(s@.subrange(0, i as int), f) == Ok::<Seq<u8>, JomError>(acc),
        decreases s@.len() - i,
    {
        proof {
            lemma_seq_bytes_step(s@, f, i as int);
        }
        match write_ref(out, p, ConstantPoolIndex::Class(s[i].clone())) {
            Ok(()) => {},
            Err(e) => {
                proof {
                    lemma_seq_bytes_err(s@, f, i + 1, e);
                }
                return Err(e);
            },
        }
        proof {
            let x = (index_bytes(p@, Constant::Class(s@[i as int]@)))->Ok_0;
            assert(out@ =~= o + u16_bytes(s@.len() as u16) + (acc + x));
            acc = acc + x;
        }
        i += 1;
    }
    proof {
        lemma_seq_bytes_all(s@, f);
    }
    assert(out@ =~= o + (u16_bytes(s@.len() as u16) + acc));
    Ok(())
}

fn write_fields(out: &mut Vec<u8>, p: &ConstantPool, s: &Vec<FieldInfo>) -> (r: JomResult<()>)
    requires
        pool_wf(p@),
    ensures
        r is Ok ==> counted(s@, |f: FieldInfo| field_bytes(p@, f)) is Ok && final(out)@ == old(out)@ + counted(s@, |f: FieldInfo| field_bytes(p@, f))->Ok_0,
        r matches Err(e) ==> counted(s@, |f: FieldInfo| field_bytes(p@, f)) == Err::<Seq<u8>, JomError>(e),
{
    let ghost f = |f: FieldInfo| field_bytes(p@, f);
    let ghost o = old(out)@;
    if s.len() > 0xFFFF {
        return Err(JomError::TooLarge);
    }
    push_u16(out, s.len() as u16);
    let ghost acc = Seq::<u8>::empty();
    let mut i: usize = 0;
    while i < s.len()
        invariant
            i <= s@.len() <= 0xFFFF,
            pool_wf(p@),
            f == |f: FieldInfo| field_bytes(p@, f),
            out@ == o + u16_bytes(s@.len() as u16) + acc,
            seq_bytes(s@.subrange(0, i as int), f) == Ok::<Seq<u8>, JomError>(acc),
        decreases s@.len() - i,
    {
        proof {
            lemma_seq_bytes_step(s@, f, i as int);
        }
        match write_field(out, p, &s[i]) {
            Ok(()) => {},
            Err(e) => {
                proof {
                    lemma_seq_bytes_err(s@, f, i + 1, e);
                }
                return Err(e);
            },
        }
        proof {
            let x = (field_bytes(p@, s@[i as int]))->Ok_0;
            assert(out@ =~= o + u16_bytes(s@.len() as u16) + (acc + x));
            acc = acc + x;
        }
        i += 1;
    }
    proof {
        lemma_seq_bytes_all(s@, f);
    }
    assert(out@ =~= o + (u16_bytes(s@.len() as u16) + acc));
    Ok(())
}

fn write_methods(out: &mut Vec<u8>, p: &ConstantPool, s: &Vec<MethodInfo>) -> (r: JomResult<()>)
    requires
        pool_wf(p@),
    ensures
        r is Ok ==> counted(s@, |m: MethodInfo| method_bytes(p@, m)) is Ok && final(out)@ == old(out)@ + counted(s@, |m: MethodInfo| method_bytes(p@, m))->Ok_0,
        r matches Err(e) ==> counted(s@, |m: MethodInfo| method_bytes(p@, m)) == Err::<Seq<u8>, JomError>(e),
{
    let ghost f = |m: MethodInfo| method_bytes(p@, m);
    let ghost o = old(out)@;
    if s.len() > 0xFFFF {
        return Err(JomError::TooLarge);
    }
    push_u16(out, s.len() as u16);
    let ghost acc = Seq::<u8>::empty();
    let mut i: usize = 0;
    while i < s.len()
        invariant
            i <= s@.len() <= 0xFFFF,
            pool_wf(p@),
            f == |m: MethodInfo| method_bytes(p@, m),
            out@ == o + u16_bytes(s@.len() as u16) + acc,
            seq_bytes(s@.subrange(0, i as int), f) == Ok::<Seq<u8>, JomError>(acc),
        decreases s@.len() - i,
    {
        proof {
            lemma_seq_bytes_step(s@, f, i as int);
        }
        match write_method(out, p, &s[i]) {
            Ok(()) => {},
            Err(e) => {
                proof {
                    lemma_seq_bytes_err(s@, f, i + 1, e);
                }
                return Err(e);
            },
        }
        proof {
            let x = (method_bytes(p@, s@[i as int]))->Ok_0;
            assert(out@ =~= o + u16_bytes(s@.len() as u16) + (acc + x));
            acc = acc + x;
        }
        i += 1;
    }
    proof {
        lemma_seq_bytes_all(s@, f);
    }
    assert(out@ =~= o + (u16_bytes(s@.len() as u16) + acc));
    Ok(())
}

fn write_class_attrs(out: &mut Vec<u8>, p: &ConstantPool, s: &Vec<ClassAttribute>) -> (r: JomResult<()>)
    requires
        pool_wf(p@),
    ensures
        r is Ok ==> counted(s@, |a: ClassAttribute| class_attr_bytes(p@, a)) is Ok && final(out)@ == old(out)@ + counted(s@, |a: ClassAttribute| class_attr_bytes(p@, a))->Ok_0,
        r matches Err(e) ==> counted(s@, |a: ClassAttribute| class_attr_bytes(p@, a)) == Err::<Seq<u8>, JomError>(e),
{
    let ghost f = |a: ClassAttribute| class_attr_bytes(p@, a);
    let ghost o = old(out)@;
    if s.len() > 0xFFFF {
        return Err(JomError::TooLarge);
    }
    push_u16(out, s.len() as u16);
    let ghost acc = Seq::<u8>::empty();
    let mut i: usize = 0;
    while i < s.len()
        invariant
            i <= s@.len() <= 0xFFFF,
            pool_wf(p@),
            f == |a: ClassAttribute| class_attr_bytes(p@, a),
            out@ == o + u16_bytes(s@.len() as u16) + acc,
            seq_bytes(s@.subrange(0, i as int), f) == Ok::<Seq<u8>, JomError>(acc),
        decreases s@.len() - i,
    {
        proof {
            lemma_seq_bytes_step(s@, f, i as int);
        }
        match write_class_attr(out, p, &s[i]) {
            Ok(()) => {},
            Err(e) => {
                proof {
                    lemma_seq_bytes_err(s@, f, i + 1, e);
                }
                return Err(e);
            },
        }
        proof {
            let x = (class_attr_bytes(p@, s@[i as int]))->Ok_0;
            assert(out@ =~= o + u16_bytes(s@.len() as u16) + (acc + x));
            acc = acc + x;
        }
        i += 1;
    }
    proof {
        lemma_seq_bytes_all(s@, f);
    }
    assert(out@ =~= o + (u16_bytes(s@.len() as u16) + acc));
    Ok(())
}

fn write_line_row(out: &mut Vec<u8>, r: &LineNumberTableIndex) -> (res: JomResult<()>)
    ensures
        res is Ok && final(out)@ == old(out)@ + line_row(*r)->Ok_0,
{
    push_u16(out, r.start_pc);
    push_u16(out, r.line_number);
    assert(final(out)@ =~= old(out)@ + line_row(*r)->Ok_0);
    Ok(())
}

fn write_local_row(out: &mut Vec<u8>, p: &ConstantPool, row: &LocalVariableTableIndex) -> (r: JomResult<()>)
    requires
        pool_wf(p@),
    ensures
        r is Ok ==> local_row(p@, *row) is Ok && final(out)@ == old(out)@ + local_row(p@, *row)->Ok_0,
        r matches Err(e) ==> local_row(p@, *row) == Err::<Seq<u8>, JomError>(e),
{
    let ghost o = old(out)@;
    push_u16(out, row.start_pc);
    push_u16(out, row.length);
    write_ref(out, p, ConstantPoolIndex::Utf8(row.name.clone()))?;
    write_ref(out, p, ConstantPoolIndex::Utf8(row.descriptor.clone()))?;
    push_u16(out, row.index);
    assert(out@ =~= o + local_row(p@, *row)->Ok_0);
    Ok(())
}

fn write_exception_row(out: &mut Vec<u8>, p: &ConstantPool, x: &Exception) -> (r: JomResult<()>)
    requires
        pool_wf(p@),
    ensures
        r is Ok ==> exception_row(p@, *x) is Ok && final(out)@ == old(out)@ + exception_row(p@, *x)->Ok_0,
        r matches Err(e) ==> exception_row(p@, *x) == Err::<Seq<u8>, JomError>(e),
{
    let ghost o = old(out)@;
    push_u16(out, x.start_pc);
    push_u16(out, x.end_pc);
    push_u16(out, x.handler_pc);
    match &x.catch_type {
        None => push_u16(out, 0),
        Some(s) => write_ref(out, p, ConstantPoolIndex::Class(s.clone()))?,
    }
    assert(out@ =~= o + exception_row(p@, *x)->Ok_0);
    Ok(())
}

/// Appends an attribute record: the name's index, then the sized payload.
fn write_attr(out: &mut Vec<u8>, p: &ConstantPool, name: String, payload: JomResult<Vec<u8>>) -> (r: JomResult<()>)
    requires
        pool_wf(p@),
    ensures
        r is Ok ==> index_bytes(p@, Constant::Utf8(name@)) is Ok && payload is Ok
            && sized(Ok(payload->Ok_0@)) is Ok
            && final(out)@ == old(out)@ + (index_bytes(p@, Constant::Utf8(name@))->Ok_0 + sized(Ok(payload->Ok_0@))->Ok_0),
        r matches Err(e) ==> index_bytes(p@, Constant::Utf8(name@)) == Err::<Seq<u8>, JomError>(e)
            || index_bytes(p@, Constant::Utf8(name@)) is Ok && payload == Err::<Vec<u8>, JomError>(e)
            || index_bytes(p@, Constant::Utf8(name@)) is Ok && payload is Ok && sized(Ok(payload->Ok_0@)) == Err::<Seq<u8>, JomError>(e),
{
    let ghost o = old(out)@;
    write_ref(out, p, ConstantPoolIndex::Utf8(name))?;
    let b = payload?;
    write_sized(out, &b)?;
    assert(out@ =~= o + (index_bytes(p@, Constant::Utf8(name@))->Ok_0 + sized(Ok(b@))->Ok_0));
    Ok(())
}

fn ref_payload(p: &ConstantPool, c: ConstantPoolIndex) -> (r: JomResult<Vec<u8>>)
    requires
        pool_wf(p@),
    ensures
        r matches Ok(b) ==> index_bytes(p@, c@) == Ok::<Seq<u8>, JomError>(b@),
        r matches Err(e) ==> index_bytes(p@, c@) == Err::<Seq<u8>, JomError>(e),
{
    let mut t: Vec<u8> = Vec::new();
    write_ref(&mut t, p, c)?;
    assert(t@ =~= index_bytes(p@, c@)->Ok_0);
    Ok(t)
}

fn write_field_attr(out: &mut Vec<u8>, p: &ConstantPool, a: &FieldAttribute) -> (r: JomResult<()>)
    requires
        pool_wf(p@),
    ensures
        r is Ok ==> field_attr_bytes(p@, *a) is Ok && final(out)@ == old(out)@ + field_attr_bytes(p@, *a)->Ok_0,
        r matches Err(e) ==> field_attr_bytes(p@, *a) == Err::<Seq<u8>, JomError>(e),
{
    match a {
        FieldAttribute::ConstantValue(v) => write_attr(out, p, "ConstantValue".to_owned(), ref_payload(p, v.to_cp_index())),
        FieldAttribute::Synthetic => write_attr(out, p, "Synthetic".to_owned(), Ok(Vec::new())),
        FieldAttribute::Deprecated => write_attr(out, p, "Deprecated".to_owned(), Ok(Vec::new())),
        FieldAttribute::Signature(s) => write_attr(out, p, "Signature".to_owned(), ref_payload(p, ConstantPoolIndex::Utf8(s.clone()))),
        FieldAttribute::Unknown(n, b) => write_attr(out, p, n.clone(), Ok(crate::attribute::copy_bytes(b))),
    }
}

fn write_code_attr(out: &mut Vec<u8>, p: &ConstantPool, a: &CodeAttribute) -> (r: JomResult<()>)
    requires
        pool_wf(p@),
    ensures
        r is Ok ==> code_attr_bytes(p@, *a) is Ok && final(out)@ == old(out)@ + code_attr_bytes(p@, *a)->Ok_0,
        r matches Err(e) ==> code_attr_bytes(p@, *a) == Err::<Seq<u8>, JomError>(e),
{
    match a {
        CodeAttribute::LineNumberTable(t) => {
            let mut b: Vec<u8> = Vec::new();
            let w = write_line_rows(&mut b, p, t);
            let payload = match w {
                Ok(()) => Ok(b),
                Err(e) => Err(e),
            };
            write_attr(out, p, "LineNumberTable".to_owned(), payload)
        },
        CodeAttribute::LocalVariableTable(t) => {
            let mut b: Vec<u8> = Vec::new();
            let w = write_local_rows(&mut b, p, t);
            let payload = match w {
                Ok(()) => Ok(b),
                Err(e) => Err(e),
            };
            write_attr(out, p, "LocalVariableTable".to_owned(), payload)
        },
        CodeAttribute::LocalVariableTypeTable(t) => {
            let mut b: Vec<u8> = Vec::new();
            let w = write_local_rows(&mut b, p, t);
            let payload = match w {
                Ok(()) => Ok(b),
                Err(e) => Err(e),
            };
            write_attr(out, p, "LocalVariableTypeTable".to_owned(), payload)
        },
        CodeAttribute::Unknown(n, b) => write_attr(out, p, n.clone(), Ok(crate::attribute::copy_bytes(b))),
    }
}

/// Appends the payload of a `Code` attribute.
pub fn write_code(out: &mut Vec<u8>, p: &ConstantPool, c: &Code) -> (r: JomResult<()>)
    requires
        pool_wf(p@),
    ensures
        r is Ok ==> code_bytes(p@, *c) is Ok && final(out)@ == old(out)@ + code_bytes(p@, *c)->Ok_0,
        r matches Err(e) ==> code_bytes(p@, *c) == Err::<Seq<u8>, JomError>(e),
{
    let ghost o = old(out)@;
    let ins = encode_instructions(&c.instructions);
    if ins.len() > u32::MAX as usize {
        return Err(JomError::TooLarge);
    }
    push_u16(out, c.max_stack);
    push_u16(out, c.max_locals);
    push_u32(out, ins.len() as u32);
    push_all(out, ins.as_slice());
    let ghost o1 = out@;
    write_exception_rows(out, p, &c.exception_table)?;
    let ghost o2 = out@;
    write_code_attrs(out, p, &c.attributes)?;
    assert(out@ =~= o + code_bytes(p@, *c)->Ok_0);
    Ok(())
}

fn write_method_attr(out: &mut Vec<u8>, p: &ConstantPool, a: &MethodAttribute) -> (r: JomResult<()>)
    requires
        pool_wf(p@),
    ensures
        r is Ok ==> method_attr_bytes(p@, *a) is Ok && final(out)@ == old(out)@ + method_attr_bytes(p@, *a)->Ok_0,
        r matches Err(e) ==> method_attr_bytes(p@, *a) == Err::<Seq<u8>, JomError>(e),
{
    match a {
        MethodAttribute::Code(c) => {
            let mut b: Vec<u8> = Vec::new();
            let w = write_code(&mut b, p, c);
            let payload = match w {
                Ok(()) => Ok(b),
                Err(e) => Err(e),
            };
            write_attr(out, p, "Code".to_owned(), payload)
        },
        MethodAttribute::Synthetic => write_attr(out, p, "Synthetic".to_owned(), Ok(Vec::new())),
        MethodAttribute::Deprecated => write_attr(out, p, "Deprecated".to_owned(), Ok(Vec::new())),
        MethodAttribute::Signature(s) => write_attr(out, p, "Signature".to_owned(), ref_payload(p, ConstantPoolIndex::Utf8(s.clone()))),
        MethodAttribute::Unknown(n, b) => write_attr(out, p, n.clone(), Ok(crate::attribute::copy_bytes(b))),
    }
}

fn write_head(out: &mut Vec<u8>, p: &ConstantPool, flags: u16, name: &String, descriptor: &String) -> (r: JomResult<()>)
    requires
        pool_wf(p@),
    ensures
        r is Ok ==> member_head(p@, flags, name@, descriptor@) is Ok && final(out)@ == old(out)@ + member_head(p@, flags, name@, descriptor@)->Ok_0,
        r matches Err(e) ==> member_head(p@, flags, name@, descriptor@) == Err::<Seq<u8>, JomError>(e),
{
    let ghost o = old(out)@;
    push_u16(out, flags);
    write_ref(out, p, ConstantPoolIndex::Utf8(name.clone()))?;
    write_ref(out, p, ConstantPoolIndex::Utf8(descriptor.clone()))?;
    assert(out@ =~= o + member_head(p@, flags, name@, descriptor@)->Ok_0);
    Ok(())
}

fn write_field(out: &mut Vec<u8>, p: &ConstantPool, f: &FieldInfo) -> (r: JomResult<()>)
    requires
        pool_wf(p@),
    ensures
        r is Ok ==> field_bytes(p@, *f) is Ok && final(out)@ == old(out)@ + field_bytes(p@, *f)->Ok_0,
        r matches Err(e) ==> field_bytes(p@, *f) == Err::<Seq<u8>, JomError>(e),
{
    let ghost o = old(out)@;
    write_head(out, p, f.access_flags, &f.name, &f.descriptor)?;
    write_field_attrs(out, p, &f.attributes)?;
    assert(out@ =~= o + field_bytes(p@, *f)->Ok_0);
    Ok(())
}

fn write_class_attr(out: &mut Vec<u8>, p: &ConstantPool, a: &ClassAttribute) -> (r: JomResult<()>)
    requires
        pool_wf(p@),
    ensures
        r is Ok ==> class_attr_bytes(p@, *a) is Ok && final(out)@ == old(out)@ + class_attr_bytes(p@, *a)->Ok_0,
        r matches Err(e) ==> class_attr_bytes(p@, *a) == Err::<Seq<u8>, JomError>(e),
{
    write_attr(out, p, a.name.clone(), Ok(crate::attribute::copy_bytes(&a.info)))
}

fn write_method(out: &mut Vec<u8>, p: &ConstantPool, m: &MethodInfo) -> (r: JomResult<()>)
    requires
        pool_wf(p@),
    ensures
        r is Ok ==> method_bytes(p@, *m) is Ok && final(out)@ == old(out)@ + method_bytes(p@, *m)->Ok_0,
        r matches Err(e) ==> method_bytes(p@, *m) == Err::<Seq<u8>, JomError>(e),
{
    let ghost o = old(out)@;
    write_head(out, p, m.access_flags, &m.name, &m.descriptor)?;
    write_method_attrs(out, p, &m.attributes)?;
    assert(out@ =~= o + method_bytes(p@, *m)->Ok_0);
    Ok(())
}

impl ClassFile {
    #[verifier::rlimit(80)]
    /// Writes the class against `pool`: each name and value as the index of
    /// its first occurrence there, and `pool` itself as the constant pool.
    pub fn write_with_pool(&self, pool: &ConstantPool) -> (r: JomResult<Vec<u8>>)
        requires
            pool_wf(pool@),
        ensures
            r matches Ok(b) ==> class_bytes(*self, pool@) == Ok::<Seq<u8>, JomError>(b@),
            r matches Err(e) ==> class_bytes(*self, pool@) == Err::<Seq<u8>, JomError>(e),
    {
        let p = pool;
        let mut out: Vec<u8> = Vec::new();
        push_u32(&mut out, 0xCAFE_BABEu32);
        push_u16(&mut out, self.minor);
        push_u16(&mut out, self.major);
        assert(out@ =~= class_head(*self));
        write_pool(&mut out, p)?;
        push_u16(&mut out, self.access_flags);
        write_ref(&mut out, p, ConstantPoolIndex::Class(self.this_class.clone()))?;
        write_ref(&mut out, p, ConstantPoolIndex::Class(self.super_class.clone()))?;
        write_interfaces(&mut out, p, &self.interfaces)?;
        write_fields(&mut out, p, &self.fields)?;
        write_methods(&mut out, p, &self.methods)?;
        if self.has_attribute_table || self.attributes.len() > 0 {
            write_class_attrs(&mut out, p, &self.attributes)?;
        }
        assert(out@ =~= class_bytes(*self, p@)->Ok_0);
        Ok(out)
    }
}



/// Each item's values in turn.
pub open spec fn flat<A>(s: Seq<A>, f: spec_fn(A) -> Seq<Constant>) -> Seq<Constant>
    decreases s.len(),
{
    if s.len() == 0 {
        Seq::empty()
    } else {
        flat(s.drop_last(), f) + f(s.last())
    }
}

pub open spec fn field_attr_values(a: FieldAttribute) -> Seq<Constant> {
    match a {
        FieldAttribute::ConstantValue(v) => seq![Constant::Utf8("ConstantValue"@), v@],
        FieldAttribute::Synthetic => seq![Constant::Utf8("Synthetic"@)],
        FieldAttribute::Deprecated => seq![Constant::Utf8("Deprecated"@)],
        FieldAttribute::Signature(s) => seq![Constant::Utf8("Signature"@), Constant::Utf8(s@)],
        FieldAttribute::Unknown(n, _) => seq![Constant::Utf8(n@)],
    }
}

pub open spec fn local_values(r: LocalVariableTableIndex) -> Seq<Constant> {
    seq![Constant::Utf8(r.name@), Constant::Utf8(r.descriptor@)]
}

pub open spec fn exception_values(x: Exception) -> Seq<Constant> {
    match x.catch_type {
        Some(c) => seq![Constant::Class(c@)],
        None => Seq::empty(),
    }
}

pub open spec fn code_attr_values(a: CodeAttribute) -> Seq<Constant> {
    match a {
        CodeAttribute::LineNumberTable(_) => seq![Constant::Utf8("LineNumberTable"@)],
        CodeAttribute::LocalVariableTable(t) => seq![Constant::Utf8("LocalVariableTable"@)]
            + flat(t@, |r: LocalVariableTableIndex| local_values(r)),
        CodeAttribute::LocalVariableTypeTable(t) => seq![Constant::Utf8("LocalVariableTypeTable"@)]
            + flat(t@, |r: LocalVariableTableIndex| local_values(r)),
        CodeAttribute::Unknown(n, _) => seq![Constant::Utf8(n@)],
    }
}

pub open spec fn method_attr_values(a: MethodAttribute) -> Seq<Constant> {
    match a {
        MethodAttribute::Code(c) => seq![Constant::Utf8("Code"@)]
            + (flat(c.exception_table@, |x: Exception| exception_values(x))
            + flat(c.attributes@, |t: CodeAttribute| code_attr_values(t))),
        MethodAttribute::Synthetic => seq![Constant::Utf8("Synthetic"@)],
        MethodAttribute::Deprecated => seq![Constant::Utf8("Deprecated"@)],
        MethodAttribute::Signature(s) => seq![Constant::Utf8("Signature"@), Constant::Utf8(s@)],
        MethodAttribute::Unknown(n, _) => seq![Constant::Utf8(n@)],
    }
}

pub open spec fn field_values(f: FieldInfo) -> Seq<Constant> {
    seq![Constant::Utf8(f.name@), Constant::Utf8(f.descriptor@)]
        + flat(f.attributes@, |a: FieldAttribute| field_attr_values(a))
}

pub open spec fn method_values(m: MethodInfo) -> Seq<Constant> {
    seq![Constant::Utf8(m.name@), Constant::Utf8(m.descriptor@)]
        + flat(m.attributes@, |a: MethodAttribute| method_attr_values(a))
}

/// Every value the class refers to by a pool index, in the order they are interned.
pub open spec fn class_values(cf: ClassFile) -> Seq<Constant> {
    seq![Constant::Class(cf.this_class@), Constant::Class(cf.super_class@)]
        + (flat(cf.interfaces@, |c: String| seq![Constant::Class(c@)])
        + (flat(cf.fields@, |f: FieldInfo| field_values(f))
        + (flat(cf.methods@, |m: MethodInfo| method_values(m))
        + flat(cf.attributes@, |a: ClassAttribute| seq![Constant::Utf8(a.name@)]))))
}

/// Whether the pool holds every one of `vals`.
pub open spec fn all_in(p: Seq<Constant>, vals: Seq<Constant>) -> bool {
    forall|k: int| 0 <= k < vals.len() ==> in_pool(p, #[trigger] vals[k])
}

/// The pool a class is written against: its own pool, then every value it
/// refers to interned in turn.
pub open spec fn encoded_pool(cf: ClassFile) -> Seq<Constant> {
    intern_seq(cf.constant_pool@, class_values(cf))
}

proof fn lemma_seq_concat(p: Seq<Constant>, a: Seq<Constant>, b: Seq<Constant>)
    ensures
        intern_seq(p, a + b) == intern_seq(intern_seq(p, a), b),
    decreases b.len(),
{
    if b.len() == 0 {
        assert(a + b =~= a);
    } else {
        assert((a + b).drop_last() =~= a + b.drop_last());
        assert((a + b).last() == b.last());
        lemma_seq_concat(p, a, b.drop_last());
    }
}

proof fn lemma_seq_prefix(p: Seq<Constant>, v: Seq<Constant>)
    ensures
        p.is_prefix_of(intern_seq(p, v)),
    decreases v.len(),
{
    if v.len() == 0 {
        assert(p =~= p.subrange(0, p.len() as int));
    } else {
        lemma_seq_prefix(p, v.drop_last());
        lemma_model_prefix(intern_seq(p, v.drop_last()), v.last());
        lemma_prefix_trans(p, intern_seq(p, v.drop_last()), intern_seq(p, v));
    }
}

/// Interning values a pool already holds leaves it unchanged.
pub proof fn lemma_seq_present(p: Seq<Constant>, v: Seq<Constant>)
    requires
        all_in(p, v),
    ensures
        intern_seq(p, v) == p,
    decreases v.len(),
{
    if v.len() > 0 {
        assert(all_in(p, v.drop_last())) by {
            assert forall|k: int| 0 <= k < v.drop_last().len() implies in_pool(p, #[trigger] v.drop_last()[k]) by {
                assert(v.drop_last()[k] == v[k]);
            }
        }
        lemma_seq_present(p, v.drop_last());
        assert(in_pool(p, v[v.len() - 1]));
    }
}

/// A class whose pool already holds every value it refers to is written
/// against that pool unchanged, so its indices stay as they were.
pub proof fn lemma_encoded_pool_unchanged(cf: ClassFile)
    requires
        all_in(cf.constant_pool@, class_values(cf)),
    ensures
        encoded_pool(cf) == cf.constant_pool@,
{
    lemma_seq_present(cf.constant_pool@, class_values(cf));
}

proof fn lemma_nothing(p: Seq<Constant>)
    ensures
        p.is_prefix_of(p),
        intern_seq(p, Seq::empty()) == p,
{
    assert(p =~= p.subrange(0, p.len() as int));
}

/// Interns `e`, keeping what came before.
fn add_entry(b: &mut PoolBuilder, e: ConstantPoolIndex) -> (r: JomResult<()>)
    requires
        old(b).wf(),
    ensures
        final(b).wf(),
        final(b)@.len() <= 0xFFFF,
        old(b)@.is_prefix_of(final(b)@),
        r is Ok <==> intern_seq(old(b)@, seq![e@]).len() <= 0xFFFF,
        r is Ok ==> final(b)@ == intern_seq(old(b)@, seq![e@]),
{
    let ghost p0 = b@;
    let ghost v = e@;
    assert(seq![v].drop_last() =~= Seq::<Constant>::empty());
    assert(intern_seq(p0, Seq::<Constant>::empty()) == p0);
    assert(seq![v].last() == v);
    assert(intern_seq(p0, seq![v]) == intern_model(p0, v));
    match b.intern(e) {
        Ok(_) => Ok(()),
        Err(x) => Err(x),
    }
}

fn add_field_attr(b: &mut PoolBuilder, a: &FieldAttribute) -> (r: JomResult<()>)
    requires
        old(b).wf(),
    ensures
        final(b).wf(),
        final(b)@.len() <= 0xFFFF,
        old(b)@.is_prefix_of(final(b)@),
        r is Ok <==> intern_seq(old(b)@, field_attr_values(*a)).len() <= 0xFFFF,
        r is Ok ==> final(b)@ == intern_seq(old(b)@, field_attr_values(*a)),
{
    let ghost p0 = b@;
    proof {
        assert(seq![Constant::Utf8(attr_name_field_spec(*a))] + field_attr_rest(*a) =~= field_attr_values(*a));
        lemma_seq_concat(p0, seq![Constant::Utf8(attr_name_field_spec(*a))], field_attr_rest(*a));
        lemma_seq_prefix(intern_seq(p0, seq![Constant::Utf8(attr_name_field_spec(*a))]), field_attr_rest(*a));
    }
    let r1 = add_entry(b, ConstantPoolIndex::Utf8(attr_name_field(a)));
    if r1.is_err() {
        return r1;
    }
    let ghost p1 = b@;
    let r = add_field_attr_value(b, a);
    proof {
        lemma_prefix_trans(p0, p1, b@);
    }
    r
}

pub open spec fn attr_name_field_spec(a: FieldAttribute) -> Seq<char> {
    field_attr_values(a)[0]->Utf8_0
}

pub open spec fn field_attr_rest(a: FieldAttribute) -> Seq<Constant> {
    field_attr_values(a).subrange(1, field_attr_values(a).len() as int)
}

fn attr_name_field(a: &FieldAttribute) -> (r: String)
    ensures
        r@ == attr_name_field_spec(*a),
{
    match a {
        FieldAttribute::ConstantValue(_) => "ConstantValue".to_owned(),
        FieldAttribute::Synthetic => "Synthetic".to_owned(),
        FieldAttribute::Deprecated => "Deprecated".to_owned(),
        FieldAttribute::Signature(_) => "Signature".to_owned(),
        FieldAttribute::Unknown(n, _) => n.clone(),
    }
}

fn add_field_attr_value(b: &mut PoolBuilder, a: &FieldAttribute) -> (r: JomResult<()>)
    requires
        old(b).wf(),
    ensures
        final(b).wf(),
        final(b)@.len() <= 0xFFFF,
        old(b)@.is_prefix_of(final(b)@),
        r is Ok <==> intern_seq(old(b)@, field_attr_rest(*a)).len() <= 0xFFFF,
        r is Ok ==> final(b)@ == intern_seq(old(b)@, field_attr_rest(*a)),
{
    match a {
        FieldAttribute::ConstantValue(v) => {
            assert(field_attr_rest(*a) =~= seq![v@]);
            add_entry(b, v.to_cp_index())
        },
        FieldAttribute::Signature(s) => {
            assert(field_attr_rest(*a) =~= seq![Constant::Utf8(s@)]);
            add_entry(b, ConstantPoolIndex::Utf8(s.clone()))
        },
        _ => {
            assert(field_attr_rest(*a) =~= Seq::<Constant>::empty());
            proof {
                lemma_nothing(b@);
            }
            Ok(())
        },
    }
}

fn add_local_row(b: &mut PoolBuilder, row: &LocalVariableTableIndex) -> (r: JomResult<()>)
    requires
        old(b).wf(),
    ensures
        final(b).wf(),
        final(b)@.len() <= 0xFFFF,
        old(b)@.is_prefix_of(final(b)@),
        r is Ok <==> intern_seq(old(b)@, local_values(*row)).len() <= 0xFFFF,
        r is Ok ==> final(b)@ == intern_seq(old(b)@, local_values(*row)),
{
    let ghost p0 = b@;
    proof {
        assert(seq![Constant::Utf8(row.name@)] + seq![Constant::Utf8(row.descriptor@)] =~= local_values(*row));
        lemma_seq_concat(p0, seq![Constant::Utf8(row.name@)], seq![Constant::Utf8(row.descriptor@)]);
        lemma_seq_prefix(intern_seq(p0, seq![Constant::Utf8(row.name@)]), seq![Constant::Utf8(row.descriptor@)]);
    }
    let r1 = add_entry(b, ConstantPoolIndex::Utf8(row.name.clone()));
    if r1.is_err() {
        return r1;
    }
    let ghost p1 = b@;
    let r = add_entry(b, ConstantPoolIndex::Utf8(row.descriptor.clone()));
    proof {
        lemma_prefix_trans(p0, p1, b@);
    }
    r
}

fn add_exception_row(b: &mut PoolBuilder, x: &Exception) -> (r: JomResult<()>)
    requires
        old(b).wf(),
    ensures
        final(b).wf(),
        final(b)@.len() <= 0xFFFF,
        old(b)@.is_prefix_of(final(b)@),
        r is Ok <==> intern_seq(old(b)@, exception_values(*x)).len() <= 0xFFFF,
        r is Ok ==> final(b)@ == intern_seq(old(b)@, exception_values(*x)),
{
    match &x.catch_type {
        Some(c) => add_entry(b, ConstantPoolIndex::Class(c.clone())),
        None => {
            proof {
                lemma_nothing(b@);
            }
            Ok(())
        },
    }
}

pub open spec fn code_attr_rest(a: CodeAttribute) -> Seq<Constant> {
    code_attr_values(a).subrange(1, code_attr_values(a).len() as int)
}

fn code_attr_name(a: &CodeAttribute) -> (r: String)
    ensures
        Constant::Utf8(r@) == code_attr_values(*a)[0],
{
    match a {
        CodeAttribute::LineNumberTable(_) => "LineNumberTable".to_owned(),
        CodeAttribute::LocalVariableTable(_) => "LocalVariableTable".to_owned(),
        CodeAttribute::LocalVariableTypeTable(_) => "LocalVariableTypeTable".to_owned(),
        CodeAttribute::Unknown(n, _) => n.clone(),
    }
}

fn add_code_attr_rest(b: &mut PoolBuilder, a: &CodeAttribute) -> (r: JomResult<()>)
    requires
        old(b).wf(),
    ensures
        final(b).wf(),
        final(b)@.len() <= 0xFFFF,
        old(b)@.is_prefix_of(final(b)@),
        r is Ok <==> intern_seq(old(b)@, code_attr_rest(*a)).len() <= 0xFFFF,
        r is Ok ==> final(b)@ == intern_seq(old(b)@, code_attr_rest(*a)),
{
    match a {
        CodeAttribute::LocalVariableTable(t) | CodeAttribute::LocalVariableTypeTable(t) => {
            assert(code_attr_rest(*a) =~= flat(t@, |r: LocalVariableTableIndex| local_values(r)));
            add_local_rows(b, t)
        },
        _ => {
            assert(code_attr_rest(*a) =~= Seq::<Constant>::empty());
            proof {
                lemma_nothing(b@);
            }
            Ok(())
        },
    }
}

fn add_code_attr(b: &mut PoolBuilder, a: &CodeAttribute) -> (r: JomResult<()>)
    requires
        old(b).wf(),
    ensures
        final(b).wf(),
        final(b)@.len() <= 0xFFFF,
        old(b)@.is_prefix_of(final(b)@),
        r is Ok <==> intern_seq(old(b)@, code_attr_values(*a)).len() <= 0xFFFF,
        r is Ok ==> final(b)@ == intern_seq(old(b)@, code_attr_values(*a)),
{
    let ghost p0 = b@;
    proof {
        assert(seq![code_attr_values(*a)[0]] + code_attr_rest(*a) =~= code_attr_values(*a));
        lemma_seq_concat(p0, seq![code_attr_values(*a)[0]], code_attr_rest(*a));
        lemma_seq_prefix(intern_seq(p0, seq![code_attr_values(*a)[0]]), code_attr_rest(*a));
    }
    let r1 = add_entry(b, ConstantPoolIndex::Utf8(code_attr_name(a)));
    if r1.is_err() {
        return r1;
    }
    let ghost p1 = b@;
    let r = add_code_attr_rest(b, a);
    proof {
        lemma_prefix_trans(p0, p1, b@);
    }
    r
}

pub open spec fn method_attr_rest(a: MethodAttribute) -> Seq<Constant> {
    method_attr_values(a).subrange(1, method_attr_values(a).len() as int)
}

fn method_attr_name(a: &MethodAttribute) -> (r: String)
    ensures
        Constant::Utf8(r@) == method_attr_values(*a)[0],
{
    match a {
        MethodAttribute::Code(_) => "Code".to_owned(),
        MethodAttribute::Synthetic => "Synthetic".to_owned(),
        MethodAttribute::Deprecated => "Deprecated".to_owned(),
        MethodAttribute::Signature(_) => "Signature".to_owned(),
        MethodAttribute::Unknown(n, _) => n.clone(),
    }
}

fn add_code_body(b: &mut PoolBuilder, c: &Code) -> (r: JomResult<()>)
    requires
        old(b).wf(),
    ensures
        final(b).wf(),
        final(b)@.len() <= 0xFFFF,
        old(b)@.is_prefix_of(final(b)@),
        r is Ok <==> intern_seq(old(b)@, flat(c.exception_table@, |x: Exception| exception_values(x)) + flat(c.attributes@, |t: CodeAttribute| code_attr_values(t))).len() <= 0xFFFF,
        r is Ok ==> final(b)@ == intern_seq(old(b)@, flat(c.exception_table@, |x: Exception| exception_values(x)) + flat(c.attributes@, |t: CodeAttribute| code_attr_values(t))),
{
    let ghost p0 = b@;
    proof {
        assert(flat(c.exception_table@, |x: Exception| exception_values(x)) + flat(c.attributes@, |t: CodeAttribute| code_attr_values(t)) =~= flat(c.exception_table@, |x: Exception| exception_values(x)) + flat(c.attributes@, |t: CodeAttribute| code_attr_values(t)));
        lemma_seq_concat(p0, flat(c.exception_table@, |x: Exception| exception_values(x)), flat(c.attributes@, |t: CodeAttribute| code_attr_values(t)));
        lemma_seq_prefix(intern_seq(p0, flat(c.exception_table@, |x: Exception| exception_values(x))), flat(c.attributes@, |t: CodeAttribute| code_attr_values(t)));
    }
    let r1 = add_exception_rows(b, &c.exception_table);
    if r1.is_err() {
        return r1;
    }
    let ghost p1 = b@;
    let r = add_code_attrs(b, &c.attributes);
    proof {
        lemma_prefix_trans(p0, p1, b@);
    }
    r
}

fn add_method_attr_rest(b: &mut PoolBuilder, a: &MethodAttribute) -> (r: JomResult<()>)
    requires
        old(b).wf(),
    ensures
        final(b).wf(),
        final(b)@.len() <= 0xFFFF,
        old(b)@.is_prefix_of(final(b)@),
        r is Ok <==> intern_seq(old(b)@, method_attr_rest(*a)).len() <= 0xFFFF,
        r is Ok ==> final(b)@ == intern_seq(old(b)@, method_attr_rest(*a)),
{
    match a {
        MethodAttribute::Code(c) => {
            assert(method_attr_rest(*a) =~= flat(c.exception_table@, |x: Exception| exception_values(x))
                + flat(c.attributes@, |t: CodeAttribute| code_attr_values(t)));
            add_code_body(b, c)
        },
        MethodAttribute::Signature(s) => {
            assert(method_attr_rest(*a) =~= seq![Constant::Utf8(s@)]);
            add_entry(b, ConstantPoolIndex::Utf8(s.clone()))
        },
        _ => {
            assert(method_attr_rest(*a) =~= Seq::<Constant>::empty());
            proof {
                lemma_nothing(b@);
            }
            Ok(())
        },
    }
}

fn add_method_attr(b: &mut PoolBuilder, a: &MethodAttribute) -> (r: JomResult<()>)
    requires
        old(b).wf(),
    ensures
        final(b).wf(),
        final(b)@.len() <= 0xFFFF,
        old(b)@.is_prefix_of(final(b)@),
        r is Ok <==> intern_seq(old(b)@, method_attr_values(*a)).len() <= 0xFFFF,
        r is Ok ==> final(b)@ == intern_seq(old(b)@, method_attr_values(*a)),
{
    let ghost p0 = b@;
    proof {
        assert(seq![method_attr_values(*a)[0]] + method_attr_rest(*a) =~= method_attr_values(*a));
        lemma_seq_concat(p0, seq![method_attr_values(*a)[0]], method_attr_rest(*a));
        lemma_seq_prefix(intern_seq(p0, seq![method_attr_values(*a)[0]]), method_attr_rest(*a));
    }
    let r1 = add_entry(b, ConstantPoolIndex::Utf8(method_attr_name(a)));
    if r1.is_err() {
        return r1;
    }
    let ghost p1 = b@;
    let r = add_method_attr_rest(b, a);
    proof {
        lemma_prefix_trans(p0, p1, b@);
    }
    r
}

fn add_head(b: &mut PoolBuilder, name: &String, descriptor: &String) -> (r: JomResult<()>)
    requires
        old(b).wf(),
    ensures
        final(b).wf(),
        final(b)@.len() <= 0xFFFF,
        old(b)@.is_prefix_of(final(b)@),
        r is Ok <==> intern_seq(old(b)@, seq![Constant::Utf8(name@), Constant::Utf8(descriptor@)]).len() <= 0xFFFF,
        r is Ok ==> final(b)@ == intern_seq(old(b)@, seq![Constant::Utf8(name@), Constant::Utf8(descriptor@)]),
{
    let ghost p0 = b@;
    proof {
        assert(seq![Constant::Utf8(name@)] + seq![Constant::Utf8(descriptor@)] =~= seq![Constant::Utf8(name@), Constant::Utf8(descriptor@)]);
        lemma_seq_concat(p0, seq![Constant::Utf8(name@)], seq![Constant::Utf8(descriptor@)]);
        lemma_seq_prefix(intern_seq(p0, seq![Constant::Utf8(name@)]), seq![Constant::Utf8(descriptor@)]);
    }
    let r1 = add_entry(b, ConstantPoolIndex::Utf8(name.clone()));
    if r1.is_err() {
        return r1;
    }
    let ghost p1 = b@;
    let r = add_entry(b, ConstantPoolIndex::Utf8(descriptor.clone()));
    proof {
        lemma_prefix_trans(p0, p1, b@);
    }
    r
}

fn add_field(b: &mut PoolBuilder, f: &FieldInfo) -> (r: JomResult<()>)
    requires
        old(b).wf(),
    ensures
        final(b).wf(),
        final(b)@.len() <= 0xFFFF,
        old(b)@.is_prefix_of(final(b)@),
        r is Ok <==> intern_seq(old(b)@, field_values(*f)).len() <= 0xFFFF,
        r is Ok ==> final(b)@ == intern_seq(old(b)@, field_values(*f)),
{
    let ghost p0 = b@;
    proof {
        assert(seq![Constant::Utf8(f.name@), Constant::Utf8(f.descriptor@)] + flat(f.attributes@, |a: FieldAttribute| field_attr_values(a)) =~= field_values(*f));
        lemma_seq_concat(p0, seq![Constant::Utf8(f.name@), Constant::Utf8(f.descriptor@)], flat(f.attributes@, |a: FieldAttribute| field_attr_values(a)));
        lemma_seq_prefix(intern_seq(p0, seq![Constant::Utf8(f.name@), Constant::Utf8(f.descriptor@)]), flat(f.attributes@, |a: FieldAttribute| field_attr_values(a)));
    }
    let r1 = add_head(b, &f.name, &f.descriptor);
    if r1.is_err() {
        return r1;
    }
    let ghost p1 = b@;
    let r = add_field_attrs(b, &f.attributes);
    proof {
        lemma_prefix_trans(p0, p1, b@);
    }
    r
}

fn add_method(b: &mut PoolBuilder, m: &MethodInfo) -> (r: JomResult<()>)
    requires
        old(b).wf(),
    ensures
        final(b).wf(),
        final(b)@.len() <= 0xFFFF,
        old(b)@.is_prefix_of(final(b)@),
        r is Ok <==> intern_seq(old(b)@, method_values(*m)).len() <= 0xFFFF,
        r is Ok ==> final(b)@ == intern_seq(old(b)@, method_values(*m)),
{
    let ghost p0 = b@;
    proof {
        assert(seq![Constant::Utf8(m.name@), Constant::Utf8(m.descriptor@)] + flat(m.attributes@, |a: MethodAttribute| method_attr_values(a)) =~= method_values(*m));
        lemma_seq_concat(p0, seq![Constant::Utf8(m.name@), Constant::Utf8(m.descriptor@)], flat(m.attributes@, |a: MethodAttribute| method_attr_values(a)));
        lemma_seq_prefix(intern_seq(p0, seq![Constant::Utf8(m.name@), Constant::Utf8(m.descriptor@)]), flat(m.attributes@, |a: MethodAttribute| method_attr_values(a)));
    }
    let r1 = add_head(b, &m.name, &m.descriptor);
    if r1.is_err() {
        return r1;
    }
    let ghost p1 = b@;
    let r = add_method_attrs(b, &m.attributes);
    proof {
        lemma_prefix_trans(p0, p1, b@);
    }
    r
}

fn add_head_classes(b: &mut PoolBuilder, this: &String, sup: &String) -> (r: JomResult<()>)
    requires
        old(b).wf(),
    ensures
        final(b).wf(),
        final(b)@.len() <= 0xFFFF,
        old(b)@.is_prefix_of(final(b)@),
        r is Ok <==> intern_seq(old(b)@, seq![Constant::Class(this@), Constant::Class(sup@)]).len() <= 0xFFFF,
        r is Ok ==> final(b)@ == intern_seq(old(b)@, seq![Constant::Class(this@), Constant::Class(sup@)]),
{
    let ghost p0 = b@;
    proof {
        assert(seq![Constant::Class(this@)] + seq![Constant::Class(sup@)] =~= seq![Constant::Class(this@), Constant::Class(sup@)]);
        lemma_seq_concat(p0, seq![Constant::Class(this@)], seq![Constant::Class(sup@)]);
        lemma_seq_prefix(intern_seq(p0, seq![Constant::Class(this@)]), seq![Constant::Class(sup@)]);
    }
    let r1 = add_entry(b, ConstantPoolIndex::Class(this.clone()));
    if r1.is_err() {
        return r1;
    }
    let ghost p1 = b@;
    let r = add_entry(b, ConstantPoolIndex::Class(sup.clone()));
    proof {
        lemma_prefix_trans(p0, p1, b@);
    }
    r
}

fn add_field_attrs(b: &mut PoolBuilder, s: &Vec<FieldAttribute>) -> (r: JomResult<()>)
    requires
        old(b).wf(),
    ensures
        final(b).wf(),
        final(b)@.len() <= 0xFFFF,
        old(b)@.is_prefix_of(final(b)@),
        r is Ok <==> intern_seq(old(b)@, flat(s@, |a: FieldAttribute| field_attr_values(a))).len() <= 0xFFFF,
        r is Ok ==> final(b)@ == intern_seq(old(b)@, flat(s@, |a: FieldAttribute| field_attr_values(a))),
{
    let ghost f = |a: FieldAttribute| field_attr_values(a);
    let ghost start = b@;
    proof {
        lemma_nothing(b@);
        assert(s@.subrange(0, 0) =~= Seq::<FieldAttribute>::empty());
    }
    let mut i: usize = 0;
    while i < s.len()
        invariant
            i <= s@.len(),
            b.wf(),
            b@.len() <= 0xFFFF,
            f == |a: FieldAttribute| field_attr_values(a),
            start == old(b)@,
            start.is_prefix_of(b@),
            b@ == intern_seq(start, flat(s@.subrange(0, i as int), f)),
        decreases s@.len() - i,
    {
        let ghost before = b@;
        let ghost pre = s@.subrange(0, i as int);
        proof {
            assert(s@.subrange(0, i + 1).drop_last() =~= pre);
            assert(s@.subrange(0, i + 1).last() == s@[i as int]);
            lemma_seq_concat(start, flat(pre, f), f(s@[i as int]));
            lemma_flat_split(s@, f, i + 1);
            lemma_seq_concat(start, flat(s@.subrange(0, i + 1), f), flat(s@.subrange(i + 1, s@.len() as int), f));
            lemma_seq_prefix(intern_seq(start, flat(s@.subrange(0, i + 1), f)), flat(s@.subrange(i + 1, s@.len() as int), f));
        }
        let r = add_field_attr(b, &s[i]);
        proof {
            lemma_prefix_trans(start, before, b@);
        }
        if r.is_err() {
            return r;
        }
        i += 1;
    }
    proof {
        assert(s@.subrange(0, s@.len() as int) =~= s@);
    }
    Ok(())
}

fn add_local_rows(b: &mut PoolBuilder, s: &Vec<LocalVariableTableIndex>) -> (r: JomResult<()>)
    requires
        old(b).wf(),
    ensures
        final(b).wf(),
        final(b)@.len() <= 0xFFFF,
        old(b)@.is_prefix_of(final(b)@),
        r is Ok <==> intern_seq(old(b)@, flat(s@, |r: LocalVariableTableIndex| local_values(r))).len() <= 0xFFFF,
        r is Ok ==> final(b)@ == intern_seq(old(b)@, flat(s@, |r: LocalVariableTableIndex| local_values(r))),
{
    let ghost f = |r: LocalVariableTableIndex| local_values(r);
    let ghost start = b@;
    proof {
        lemma_nothing(b@);
        assert(s@.subrange(0, 0) =~= Seq::<LocalVariableTableIndex>::empty());
    }
    let mut i: usize = 0;
    while i < s.len()
        invariant
            i <= s@.len(),
            b.wf(),
            b@.len() <= 0xFFFF,
            f == |r: LocalVariableTableIndex| local_values(r),
            start == old(b)@,
            start.is_prefix_of(b@),
            b@ == intern_seq(start, flat(s@.subrange(0, i as int), f)),
        decreases s@.len() - i,
    {
        let ghost before = b@;
        let ghost pre = s@.subrange(0, i as int);
        proof {
            assert(s@.subrange(0, i + 1).drop_last() =~= pre);
            assert(s@.subrange(0, i + 1).last() == s@[i as int]);
            lemma_seq_concat(start, flat(pre, f), f(s@[i as int]));
            lemma_flat_split(s@, f, i + 1);
            lemma_seq_concat(start, flat(s@.subrange(0, i + 1), f), flat(s@.subrange(i + 1, s@.len() as int), f));
            lemma_seq_prefix(intern_seq(start, flat(s@.subrange(0, i + 1), f)), flat(s@.subrange(i + 1, s@.len() as int), f));
        }
        let r = add_local_row(b, &s[i]);
        proof {
            lemma_prefix_trans(start, before, b@);
        }
        if r.is_err() {
            return r;
        }
        i += 1;
    }
    proof {
        assert(s@.subrange(0, s@.len() as int) =~= s@);
    }
    Ok(())
}

fn add_exception_rows(b: &mut PoolBuilder, s: &Vec<Exception>) -> (r: JomResult<()>)
    requires
        old(b).wf(),
    ensures
        final(b).wf(),
        final(b)@.len() <= 0xFFFF,
        old(b)@.is_prefix_of(final(b)@),
        r is Ok <==> intern_seq(old(b)@, flat(s@, |x: Exception| exception_values(x))).len() <= 0xFFFF,
        r is Ok ==> final(b)@ == intern_seq(old(b)@, flat(s@, |x: Exception| exception_values(x))),
{
    let ghost f = |x: Exception| exception_values(x);
    let ghost start = b@;
    proof {
        lemma_nothing(b@);
        assert(s@.subrange(0, 0) =~= Seq::<Exception>::empty());
    }
    let mut i: usize = 0;
    while i < s.len()
        invariant
            i <= s@.len(),
            b.wf(),
            b@.len() <= 0xFFFF,
            f == |x: Exception| exception_values(x),
            start == old(b)@,
            start.is_prefix_of(b@),
            b@ == intern_seq(start, flat(s@.subrange(0, i as int), f)),
        decreases s@.len() - i,
    {
        let ghost before = b@;
        let ghost pre = s@.subrange(0, i as int);
        proof {
            assert(s@.subrange(0, i + 1).drop_last() =~= pre);
            assert(s@.subrange(0, i + 1).last() == s@[i as int]);
            lemma_seq_concat(start, flat(pre, f), f(s@[i as int]));
            lemma_flat_split(s@, f, i + 1);
            lemma_seq_concat(start, flat(s@.subrange(0, i + 1), f), flat(s@.subrange(i + 1, s@.len() as int), f));
            lemma_seq_prefix(intern_seq(start, flat(s@.subrange(0, i + 1), f)), flat(s@.subrange(i + 1, s@.len() as int), f));
        }
        let r = add_exception_row(b, &s[i]);
        proof {
            lemma_prefix_trans(start, before, b@);
        }
        if r.is_err() {
            return r;
        }
        i += 1;
    }
    proof {
        assert(s@.subrange(0, s@.len() as int) =~= s@);
    }
    Ok(())
}

fn add_code_attrs(b: &mut PoolBuilder, s: &Vec<CodeAttribute>) -> (r: JomResult<()>)
    requires
        old(b).wf(),
    ensures
        final(b).wf(),
        final(b)@.len() <= 0xFFFF,
        old(b)@.is_prefix_of(final(b)@),
        r is Ok <==> intern_seq(old(b)@, flat(s@, |t: CodeAttribute| code_attr_values(t))).len() <= 0xFFFF,
        r is Ok ==> final(b)@ == intern_seq(old(b)@, flat(s@, |t: CodeAttribute| code_attr_values(t))),
{
    let ghost f = |t: CodeAttribute| code_attr_values(t);
    let ghost start = b@;
    proof {
        lemma_nothing(b@);
        assert(s@.subrange(0, 0) =~= Seq::<CodeAttribute>::empty());
    }
    let mut i: usize = 0;
    while i < s.len()
        invariant
            i <= s@.len(),
            b.wf(),
            b@.len() <= 0xFFFF,
            f == |t: CodeAttribute| code_attr_values(t),
            start == old(b)@,
            start.is_prefix_of(b@),
            b@ == intern_seq(start, flat(s@.subrange(0, i as int), f)),
        decreases s@.len() - i,
    {
        let ghost before = b@;
        let ghost pre = s@.subrange(0, i as int);
        proof {
            assert(s@.subrange(0, i + 1).drop_last() =~= pre);
            assert(s@.subrange(0, i + 1).last() == s@[i as int]);
            lemma_seq_concat(start, flat(pre, f), f(s@[i as int]));
            lemma_flat_split(s@, f, i + 1);
            lemma_seq_concat(start, flat(s@.subrange(0, i + 1), f), flat(s@.subrange(i + 1, s@.len() as int), f));
            lemma_seq_prefix(intern_seq(start, flat(s@.subrange(0, i + 1), f)), flat(s@.subrange(i + 1, s@.len() as int), f));
        }
        let r = add_code_attr(b, &s[i]);
        proof {
            lemma_prefix_trans(start, before, b@);
        }
        if r.is_err() {
            return r;
        }
        i += 1;
    }
    proof {
        assert(s@.subrange(0, s@.len() as int) =~= s@);
    }
    Ok(())
}

fn add_method_attrs(b: &mut PoolBuilder, s: &Vec<MethodAttribute>) -> (r: JomResult<()>)
    requires
        old(b).wf(),
    ensures
        final(b).wf(),
        final(b)@.len() <= 0xFFFF,
        old(b)@.is_prefix_of(final(b)@),
        r is Ok <==> intern_seq(old(b)@, flat(s@, |a: MethodAttribute| method_attr_values(a))).len() <= 0xFFFF,
        r is Ok ==> final(b)@ == intern_seq(old(b)@, flat(s@, |a: MethodAttribute| method_attr_values(a))),
{
    let ghost f = |a: MethodAttribute| method_attr_values(a);
    let ghost start = b@;
    proof {
        lemma_nothing(b@);
        assert(s@.subrange(0, 0) =~= Seq::<MethodAttribute>::empty());
    }
    let mut i: usize = 0;
    while i < s.len()
        invariant
            i <= s@.len(),
            b.wf(),
            b@.len() <= 0xFFFF,
            f == |a: MethodAttribute| method_attr_values(a),
            start == old(b)@,
            start.is_prefix_of(b@),
            b@ == intern_seq(start, flat(s@.subrange(0, i as int), f)),
        decreases s@.len() - i,
    {
        let ghost before = b@;
        let ghost pre = s@.subrange(0, i as int);
        proof {
            assert(s@.subrange(0, i + 1).drop_last() =~= pre);
            assert(s@.subrange(0, i + 1).last() == s@[i as int]);
            lemma_seq_concat(start, flat(pre, f), f(s@[i as int]));
            lemma_flat_split(s@, f, i + 1);
            lemma_seq_concat(start, flat(s@.subrange(0, i + 1), f), flat(s@.subrange(i + 1, s@.len() as int), f));
            lemma_seq_prefix(intern_seq(start, flat(s@.subrange(0, i + 1), f)), flat(s@.subrange(i + 1, s@.len() as int), f));
        }
        let r = add_method_attr(b, &s[i]);
        proof {
            lemma_prefix_trans(start, before, b@);
        }
        if r.is_err() {
            return r;
        }
        i += 1;
    }
    proof {
        assert(s@.subrange(0, s@.len() as int) =~= s@);
    }
    Ok(())
}

fn add_classes(b: &mut PoolBuilder, s: &Vec<String>) -> (r: JomResult<()>)
    requires
        old(b).wf(),
    ensures
        final(b).wf(),
        final(b)@.len() <= 0xFFFF,
        old(b)@.is_prefix_of(final(b)@),
        r is Ok <==> intern_seq(old(b)@, flat(s@, |c: String| seq![Constant::Class(c@)])).len() <= 0xFFFF,
        r is Ok ==> final(b)@ == intern_seq(old(b)@, flat(s@, |c: String| seq![Constant::Class(c@)])),
{
    let ghost f = |c: String| seq![Constant::Class(c@)];
    let ghost start = b@;
    proof {
        lemma_nothing(b@);
        assert(s@.subrange(0, 0) =~= Seq::<String>::empty());
    }
    let mut i: usize = 0;
    while i < s.len()
        invariant
            i <= s@.len(),
            b.wf(),
            b@.len() <= 0xFFFF,
            f == |c: String| seq![Constant::Class(c@)],
            start == old(b)@,
            start.is_prefix_of(b@),
            b@ == intern_seq(start, flat(s@.subrange(0, i as int), f)),
        decreases s@.len() - i,
    {
        let ghost before = b@;
        let ghost pre = s@.subrange(0, i as int);
        proof {
            assert(s@.subrange(0, i + 1).drop_last() =~= pre);
            assert(s@.subrange(0, i + 1).last() == s@[i as int]);
            lemma_seq_concat(start, flat(pre, f), f(s@[i as int]));
            lemma_flat_split(s@, f, i + 1);
            lemma_seq_concat(start, flat(s@.subrange(0, i + 1), f), flat(s@.subrange(i + 1, s@.len() as int), f));
            lemma_seq_prefix(intern_seq(start, flat(s@.subrange(0, i + 1), f)), flat(s@.subrange(i + 1, s@.len() as int), f));
        }
        let r = add_entry(b, ConstantPoolIndex::Class(s[i].clone()));
        proof {
            lemma_prefix_trans(start, before, b@);
        }
        if r.is_err() {
            return r;
        }
        i += 1;
    }
    proof {
        assert(s@.subrange(0, s@.len() as int) =~= s@);
    }
    Ok(())
}

fn add_fields(b: &mut PoolBuilder, s: &Vec<FieldInfo>) -> (r: JomResult<()>)
    requires
        old(b).wf(),
    ensures
        final(b).wf(),
        final(b)@.len() <= 0xFFFF,
        old(b)@.is_prefix_of(final(b)@),
        r is Ok <==> intern_seq(old(b)@, flat(s@, |f: FieldInfo| field_values(f))).len() <= 0xFFFF,
        r is Ok ==> final(b)@ == intern_seq(old(b)@, flat(s@, |f: FieldInfo| field_values(f))),
{
    let ghost f = |f: FieldInfo| field_values(f);
    let ghost start = b@;
    proof {
        lemma_nothing(b@);
        assert(s@.subrange(0, 0) =~= Seq::<FieldInfo>::empty());
    }
    let mut i: usize = 0;
    while i < s.len()
        invariant
            i <= s@.len(),
            b.wf(),
            b@.len() <= 0xFFFF,
            f == |f: FieldInfo| field_values(f),
            start == old(b)@,
            start.is_prefix_of(b@),
            b@ == intern_seq(start, flat(s@.subrange(0, i as int), f)),
        decreases s@.len() - i,
    {
        let ghost before = b@;
        let ghost pre = s@.subrange(0, i as int);
        proof {
            assert(s@.subrange(0, i + 1).drop_last() =~= pre);
            assert(s@.subrange(0, i + 1).last() == s@[i as int]);
            lemma_seq_concat(start, flat(pre, f), f(s@[i as int]));
            lemma_flat_split(s@, f, i + 1);
            lemma_seq_concat(start, flat(s@.subrange(0, i + 1), f), flat(s@.subrange(i + 1, s@.len() as int), f));
            lemma_seq_prefix(intern_seq(start, flat(s@.subrange(0, i + 1), f)), flat(s@.subrange(i + 1, s@.len() as int), f));
        }
        let r = add_field(b, &s[i]);
        proof {
            lemma_prefix_trans(start, before, b@);
        }
        if r.is_err() {
            return r;
        }
        i += 1;
    }
    proof {
        assert(s@.subrange(0, s@.len() as int) =~= s@);
    }
    Ok(())
}

fn add_methods(b: &mut PoolBuilder, s: &Vec<MethodInfo>) -> (r: JomResult<()>)
    requires
        old(b).wf(),
    ensures
        final(b).wf(),
        final(b)@.len() <= 0xFFFF,
        old(b)@.is_prefix_of(final(b)@),
        r is Ok <==> intern_seq(old(b)@, flat(s@, |m: MethodInfo| method_values(m))).len() <= 0xFFFF,
        r is Ok ==> final(b)@ == intern_seq(old(b)@, flat(s@, |m: MethodInfo| method_values(m))),
{
    let ghost f = |m: MethodInfo| method_values(m);
    let ghost start = b@;
    proof {
        lemma_nothing(b@);
        assert(s@.subrange(0, 0) =~= Seq::<MethodInfo>::empty());
    }
    let mut i: usize = 0;
    while i < s.len()
        invariant
            i <= s@.len(),
            b.wf(),
            b@.len() <= 0xFFFF,
            f == |m: MethodInfo| method_values(m),
            start == old(b)@,
            start.is_prefix_of(b@),
            b@ == intern_seq(start, flat(s@.subrange(0, i as int), f)),
        decreases s@.len() - i,
    {
        let ghost before = b@;
        let ghost pre = s@.subrange(0, i as int);
        proof {
            assert(s@.subrange(0, i + 1).drop_last() =~= pre);
            assert(s@.subrange(0, i + 1).last() == s@[i as int]);
            lemma_seq_concat(start, flat(pre, f), f(s@[i as int]));
            lemma_flat_split(s@, f, i + 1);
            lemma_seq_concat(start, flat(s@.subrange(0, i + 1), f), flat(s@.subrange(i + 1, s@.len() as int), f));
            lemma_seq_prefix(intern_seq(start, flat(s@.subrange(0, i + 1), f)), flat(s@.subrange(i + 1, s@.len() as int), f));
        }
        let r = add_method(b, &s[i]);
        proof {
            lemma_prefix_trans(start, before, b@);
        }
        if r.is_err() {
            return r;
        }
        i += 1;
    }
    proof {
        assert(s@.subrange(0, s@.len() as int) =~= s@);
    }
    Ok(())
}

fn add_class_attrs(b: &mut PoolBuilder, s: &Vec<ClassAttribute>) -> (r: JomResult<()>)
    requires
        old(b).wf(),
    ensures
        final(b).wf(),
        final(b)@.len() <= 0xFFFF,
        old(b)@.is_prefix_of(final(b)@),
        r is Ok <==> intern_seq(old(b)@, flat(s@, |a: ClassAttribute| seq![Constant::Utf8(a.name@)])).len() <= 0xFFFF,
        r is Ok ==> final(b)@ == intern_seq(old(b)@, flat(s@, |a: ClassAttribute| seq![Constant::Utf8(a.name@)])),
{
    let ghost f = |a: ClassAttribute| seq![Constant::Utf8(a.name@)];
    let ghost start = b@;
    proof {
        lemma_nothing(b@);
        assert(s@.subrange(0, 0) =~= Seq::<ClassAttribute>::empty());
    }
    let mut i: usize = 0;
    while i < s.len()
        invariant
            i <= s@.len(),
            b.wf(),
            b@.len() <= 0xFFFF,
            f == |a: ClassAttribute| seq![Constant::Utf8(a.name@)],
            start == old(b)@,
            start.is_prefix_of(b@),
            b@ == intern_seq(start, flat(s@.subrange(0, i as int), f)),
        decreases s@.len() - i,
    {
        let ghost before = b@;
        let ghost pre = s@.subrange(0, i as int);
        proof {
            assert(s@.subrange(0, i + 1).drop_last() =~= pre);
            assert(s@.subrange(0, i + 1).last() == s@[i as int]);
            lemma_seq_concat(start, flat(pre, f), f(s@[i as int]));
            lemma_flat_split(s@, f, i + 1);
            lemma_seq_concat(start, flat(s@.subrange(0, i + 1), f), flat(s@.subrange(i + 1, s@.len() as int), f));
            lemma_seq_prefix(intern_seq(start, flat(s@.subrange(0, i + 1), f)), flat(s@.subrange(i + 1, s@.len() as int), f));
        }
        let r = add_entry(b, ConstantPoolIndex::Utf8(s[i].name.clone()));
        proof {
            lemma_prefix_trans(start, before, b@);
        }
        if r.is_err() {
            return r;
        }
        i += 1;
    }
    proof {
        assert(s@.subrange(0, s@.len() as int) =~= s@);
    }
    Ok(())
}

/// The values of the first `i` items and of the rest make up the values of all.
proof fn lemma_flat_split<A>(s: Seq<A>, f: spec_fn(A) -> Seq<Constant>, i: int)
    requires
        0 <= i <= s.len(),
    ensures
        flat(s.subrange(0, i), f) + flat(s.subrange(i, s.len() as int), f) == flat(s, f),
        flat(s.subrange(0, i), f).len() + flat(s.subrange(i, s.len() as int), f).len() == flat(s, f).len(),
    decreases s.len() - i,
{
    if i == s.len() {
        assert(s.subrange(0, i) =~= s);
        assert(s.subrange(i, s.len() as int) =~= Seq::<A>::empty());
        assert(flat(s, f) + Seq::<Constant>::empty() =~= flat(s, f));
    } else {
        lemma_flat_split(s, f, i + 1);
        lemma_flat_front(s.subrange(i, s.len() as int), f);
        assert(s.subrange(0, i + 1).drop_last() =~= s.subrange(0, i));
        assert(s.subrange(i, s.len() as int).subrange(1, s.len() - i) =~= s.subrange(i + 1, s.len() as int));
        assert(flat(s.subrange(0, i), f) + (f(s[i]) + flat(s.subrange(i + 1, s.len() as int), f))
            =~= (flat(s.subrange(0, i), f) + f(s[i])) + flat(s.subrange(i + 1, s.len() as int), f));
    }
}

/// The values of a non-empty sequence: its first item's, then the rest's.
proof fn lemma_flat_front<A>(s: Seq<A>, f: spec_fn(A) -> Seq<Constant>)
    requires
        s.len() > 0,
    ensures
        flat(s, f) == f(s[0]) + flat(s.subrange(1, s.len() as int), f),
    decreases s.len(),
{
    if s.len() == 1 {
        assert(s.drop_last() =~= Seq::<A>::empty());
        assert(s.subrange(1, 1) =~= Seq::<A>::empty());
        assert(f(s[0]) + Seq::<Constant>::empty() =~= f(s[0]));
    } else {
        lemma_flat_front(s.drop_last(), f);
        assert(s.drop_last().subrange(1, s.len() - 1) =~= s.subrange(1, s.len() as int).drop_last());
        assert(s.subrange(1, s.len() as int).last() == s.last());
        assert(f(s[0]) + flat(s.drop_last().subrange(1, s.len() - 1), f) + f(s.last())
            =~= f(s[0]) + (flat(s.drop_last().subrange(1, s.len() - 1), f) + f(s.last())));
    }
}

impl ClassFile {
    /// Interns every value the class refers to, in turn, after what the pool
    /// already holds. It leaves `intern_seq(old, class_values(self))`, and
    /// fails exactly when that pool would pass 65535 slots.
    pub fn intern_all(&self, b: &mut PoolBuilder) -> (r: JomResult<()>)
    requires
            old(b).wf(),
        ensures
            final(b).wf(),
            final(b)@.len() <= 0xFFFF,
            old(b)@.is_prefix_of(final(b)@),
            r is Ok <==> intern_seq(old(b)@, class_values(*self)).len() <= 0xFFFF,
            r is Ok ==> final(b)@ == intern_seq(old(b)@, class_values(*self)),
    {
        let ghost head = seq![Constant::Class(self.this_class@), Constant::Class(self.super_class@)];
        let ghost ifs = flat(self.interfaces@, |c: String| seq![Constant::Class(c@)]);
        let ghost fs = flat(self.fields@, |f: FieldInfo| field_values(f));
        let ghost ms = flat(self.methods@, |m: MethodInfo| method_values(m));
        let ghost cas = flat(self.attributes@, |a: ClassAttribute| seq![Constant::Utf8(a.name@)]);
        assert(class_values(*self) == head + (ifs + (fs + (ms + cas))));
        let r = self.intern_parts(b);
        r
    }

    fn intern_parts(&self, b: &mut PoolBuilder) -> (r: JomResult<()>)
    requires
            old(b).wf(),
        ensures
            final(b).wf(),
            final(b)@.len() <= 0xFFFF,
            old(b)@.is_prefix_of(final(b)@),
            r is Ok <==> intern_seq(old(b)@, seq![Constant::Class(self.this_class@), Constant::Class(self.super_class@)] + (flat(self.interfaces@, |c: String| seq![Constant::Class(c@)]) + (flat(self.fields@, |f: FieldInfo| field_values(f)) + (flat(self.methods@, |m: MethodInfo| method_values(m)) + flat(self.attributes@, |a: ClassAttribute| seq![Constant::Utf8(a.name@)]))))).len() <= 0xFFFF,
            r is Ok ==> final(b)@ == intern_seq(old(b)@, seq![Constant::Class(self.this_class@), Constant::Class(self.super_class@)] + (flat(self.interfaces@, |c: String| seq![Constant::Class(c@)]) + (flat(self.fields@, |f: FieldInfo| field_values(f)) + (flat(self.methods@, |m: MethodInfo| method_values(m)) + flat(self.attributes@, |a: ClassAttribute| seq![Constant::Utf8(a.name@)]))))),
    {
        let ghost head = seq![Constant::Class(self.this_class@), Constant::Class(self.super_class@)];
        let ghost ifs = flat(self.interfaces@, |c: String| seq![Constant::Class(c@)]);
        let ghost fs = flat(self.fields@, |f: FieldInfo| field_values(f));
        let ghost ms = flat(self.methods@, |m: MethodInfo| method_values(m));
        let ghost cas = flat(self.attributes@, |a: ClassAttribute| seq![Constant::Utf8(a.name@)]);
        let ghost p0 = b@;
        proof {
            lemma_seq_concat(p0, head, ifs + (fs + (ms + cas)));
            lemma_seq_prefix(intern_seq(p0, head), ifs + (fs + (ms + cas)));
        }
        let r1 = add_head_classes(b, &self.this_class, &self.super_class);
        if r1.is_err() {
            return r1;
        }
        let ghost p1 = b@;
        proof {
            lemma_seq_concat(p1, ifs, fs + (ms + cas));
            lemma_seq_prefix(intern_seq(p1, ifs), fs + (ms + cas));
        }
        let r2 = add_classes(b, &self.interfaces);
        proof {
            lemma_prefix_trans(p0, p1, b@);
        }
        if r2.is_err() {
            return r2;
        }
        let ghost p2 = b@;
        proof {
            lemma_seq_concat(p2, fs, ms + cas);
            lemma_seq_prefix(intern_seq(p2, fs), ms + cas);
        }
        let r3 = add_fields(b, &self.fields);
        proof {
            lemma_prefix_trans(p0, p2, b@);
        }
        if r3.is_err() {
            return r3;
        }
        let ghost p3 = b@;
        proof {
            lemma_seq_concat(p3, ms, cas);
            lemma_seq_prefix(intern_seq(p3, ms), cas);
        }
        let r4 = add_methods(b, &self.methods);
        proof {
            lemma_prefix_trans(p0, p3, b@);
        }
        if r4.is_err() {
            return r4;
        }
        let ghost p4 = b@;
        let r = add_class_attrs(b, &self.attributes);
        proof {
            lemma_prefix_trans(p0, p4, b@);
        }
        r
    }

    /// Encodes the class against `encoded_pool(self)`: its own pool, unchanged
    /// so every entry keeps its index, then every value it refers to interned
    /// in turn. When the pool already holds them all, that is the pool itself
    /// (`lemma_encoded_pool_unchanged`).
    pub fn encode(&self) -> (r: JomResult<Vec<u8>>)
        ensures
            !pool_wf(self.constant_pool@) ==> r == Err::<Vec<u8>, JomError>(JomError::Malformed),
            pool_wf(self.constant_pool@) && encoded_pool(*self).len() > 0xFFFF ==> r == Err::<Vec<u8>, JomError>(JomError::TooLarge),
            pool_wf(self.constant_pool@) && encoded_pool(*self).len() <= 0xFFFF ==> match r {
                Ok(bytes) => class_bytes(*self, encoded_pool(*self)) == Ok::<Seq<u8>, JomError>(bytes@),
                Err(e) => class_bytes(*self, encoded_pool(*self)) == Err::<Seq<u8>, JomError>(e),
            },
    {
        if !self.constant_pool.is_well_formed() {
            return Err(JomError::Malformed);
        }
        let mut b = PoolBuilder::from_pool(self.constant_pool.duplicate());
        if self.intern_all(&mut b).is_err() {
            return Err(JomError::TooLarge);
        }
        let pool = b.into_pool();
        self.write_with_pool(&pool)
    }
}

/// Encodes a class file: the single write entry point.
pub fn encode(class_file: &ClassFile) -> (r: JomResult<Vec<u8>>)
    ensures
        !pool_wf(class_file.constant_pool@) ==> r == Err::<Vec<u8>, JomError>(JomError::Malformed),
        pool_wf(class_file.constant_pool@) && encoded_pool(*class_file).len() > 0xFFFF ==> r == Err::<Vec<u8>, JomError>(JomError::TooLarge),
        pool_wf(class_file.constant_pool@) && encoded_pool(*class_file).len() <= 0xFFFF ==> match r {
            Ok(bytes) => class_bytes(*class_file, encoded_pool(*class_file)) == Ok::<Seq<u8>, JomError>(bytes@),
            Err(e) => class_bytes(*class_file, encoded_pool(*class_file)) == Err::<Seq<u8>, JomError>(e),
        },
{
    class_file.encode()
}

} // verus!
