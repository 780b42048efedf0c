use vstd::prelude::*;

use crate::bytes::{push_u16, push_u32, u16_bytes, u32_bytes};
use crate::constant_pool::{constant_kind, first_index, pool_wf, Constant, ConstantPool, ConstantPoolIndex};
use crate::error::{JomError, JomResult};
use crate::pool_builder::handle_member;
use crate::raw_pool::MethodHandleReferenceKind;
use crate::utf8::{text_bytes, writable_text, write_text};

verus! {

/// Both byte strings in turn, or the first error.
pub open spec fn then_bytes(a: Result<Seq<u8>, JomError>, b: Result<Seq<u8>, JomError>) -> Result<Seq<u8>, JomError> {
    match a {
        Ok(x) => match b {
            Ok(y) => Ok(x + y),
            Err(e) => Err(e),
        },
        Err(e) => Err(e),
    }
}

/// The index that refers to `c`: its first occurrence.
pub open spec fn index_bytes(p: Seq<Constant>, c: Constant) -> Result<Seq<u8>, JomError> {
    match first_index(p, c, 0) {
        Some(j) => Ok(u16_bytes(j as u16)),
        None => Err(JomError::ValueNotInConstantPool(constant_kind(c))),
    }
}

/// The index a method handle refers to; `invokestatic` and `invokespecial`
/// handles take a `Methodref` when the pool has one, else an `InterfaceMethodref`.
pub open spec fn handle_bytes(p: Seq<Constant>, k: MethodHandleReferenceKind, c: Seq<char>, n: Seq<char>, d: Seq<char>) -> Result<Seq<u8>, JomError> {
    if (k == MethodHandleReferenceKind::InvokeStatic || k == MethodHandleReferenceKind::InvokeSpecial)
        && first_index(p, Constant::Methodref(c, n, d), 0) is None {
        index_bytes(p, Constant::InterfaceMethodref(c, n, d))
    } else {
        index_bytes(p, handle_member(k, c, n, d))
    }
}

pub open spec fn u64_bytes(v: u64) -> Seq<u8> {
    u32_bytes((v / 0x1_0000_0000) as u32) + u32_bytes((v % 0x1_0000_0000) as u32)
}

pub open spec fn tagged(tag: u8, r: Result<Seq<u8>, JomError>) -> Result<Seq<u8>, JomError> {
    then_bytes(Ok(seq![tag]), r)
}

#[verifier::opaque]
/// The bytes of entry `c` of pool `p`: its tag, then its data, with each
/// reference written as the index of the entry's first occurrence.
pub open spec fn entry_bytes(p: Seq<Constant>, c: Constant) -> Result<Seq<u8>, JomError> {
    match c {
        Constant::Utf8(s) => if writable_text(s) {
            Ok(seq![1u8] + text_bytes(s))
        } else {
            Err(JomError::TooLarge)
        },
        Constant::Integer(v) => Ok(seq![3u8] + u32_bytes(v as u32)),
        Constant::Float(v) => Ok(seq![4u8] + u32_bytes(v)),
        Constant::Long(v) => Ok(seq![5u8] + u64_bytes(v as u64)),
        Constant::Double(v) => Ok(seq![6u8] + u64_bytes(v)),
        Constant::Class(s) => tagged(7, index_bytes(p, Constant::Utf8(s))),
        Constant::String(s) => tagged(8, index_bytes(p, Constant::Utf8(s))),
        Constant::Fieldref(c, n, d) => tagged(9, then_bytes(index_bytes(p, Constant::Class(c)), index_bytes(p, Constant::NameAndType(n, d)))),
        Constant::Methodref(c, n, d) => tagged(10, then_bytes(index_bytes(p, Constant::Class(c)), index_bytes(p, Constant::NameAndType(n, d)))),
        Constant::InterfaceMethodref(c, n, d) => tagged(11, then_bytes(index_bytes(p, Constant::Class(c)), index_bytes(p, Constant::NameAndType(n, d)))),
        Constant::NameAndType(n, d) => tagged(12, then_bytes(index_bytes(p, Constant::Utf8(n)), index_bytes(p, Constant::Utf8(d)))),
        Constant::MethodHandle(k, c, n, d) => tagged(15, then_bytes(Ok(seq![crate::raw_pool::ref_kind_byte(k)]), handle_bytes(p, k, c, n, d))),
        Constant::MethodType(s) => tagged(16, index_bytes(p, Constant::Utf8(s))),
        Constant::Dynamic(b, n, d) => tagged(17, then_bytes(Ok(u16_bytes(b)), index_bytes(p, Constant::NameAndType(n, d)))),
        Constant::InvokeDynamic(b, n, d) => tagged(18, then_bytes(Ok(u16_bytes(b)), index_bytes(p, Constant::NameAndType(n, d)))),
        Constant::Module(s) => tagged(19, index_bytes(p, Constant::Utf8(s))),
        Constant::Package(s) => tagged(20, index_bytes(p, Constant::Utf8(s))),
        Constant::Unusable => Ok(Seq::empty()),
    }
}

/// The bytes of slots `i` onward.
pub open spec fn entries_bytes(p: Seq<Constant>, i: int) -> Result<Seq<u8>, JomError>
    decreases p.len() - i,
{
    if i < 0 || i >= p.len() {
        Ok(Seq::empty())
    } else {
        then_bytes(entry_bytes(p, p[i]), entries_bytes(p, i + 1))
    }
}

/// The bytes of the pool: its count, then every slot from 1 on.
pub open spec fn pool_bytes(p: Seq<Constant>) -> Result<Seq<u8>, JomError> {
    then_bytes(Ok(u16_bytes(p.len() as u16)), entries_bytes(p, 1))
}

fn write_index(out: &mut Vec<u8>, pool: &ConstantPool, c: &ConstantPoolIndex) -> (r: JomResult<()>)
    requires
        pool_wf(pool@),
    ensures
        r is Ok ==> index_bytes(pool@, c@) is Ok && final(out)@ == old(out)@ + index_bytes(pool@, c@)->Ok_0,
        r matches Err(e) ==> index_bytes(pool@, c@) == Err::<Seq<u8>, JomError>(e),
{
    let i = pool.find(c)?;
    push_u16(out, i);
    Ok(())
}

fn write_u64(out: &mut Vec<u8>, v: u64)
    ensures
        final(out)@ == old(out)@ + u64_bytes(v),
{
    push_u32(out, (v / 0x1_0000_0000) as u32);
    push_u32(out, (v % 0x1_0000_0000) as u32);
    assert(final(out)@ =~= old(out)@ + u64_bytes(v));
}

/// Appends the bytes of one entry of `pool`.
pub fn write_entry(out: &mut Vec<u8>, pool: &ConstantPool, c: &ConstantPoolIndex) -> (r: JomResult<()>)
    requires
        pool_wf(pool@),
    ensures
        r is Ok ==> entry_bytes(pool@, c@) is Ok && final(out)@ == old(out)@ + entry_bytes(pool@, c@)->Ok_0,
        r matches Err(e) ==> entry_bytes(pool@, c@) == Err::<Seq<u8>, JomError>(e),
{
    proof {
        reveal(entry_bytes);
    }
    let ghost o = old(out)@;
    let ghost n0 = o.len() as int;
    match c {
        ConstantPoolIndex::Utf8(s) => {
            out.push(1u8);
            let ghost o1 = out@;
            write_text(out, s.as_str())?;
            assert(out@ =~= o + (seq![1u8] + text_bytes(s@)));
        },
        ConstantPoolIndex::Integer(v) => {
            out.push(3u8);
            push_u32(out, #[verifier::truncate] (*v as u32));
            assert(out@ =~= o + (seq![3u8] + u32_bytes(*v as u32)));
        },
        ConstantPoolIndex::Float(v) => {
            out.push(4u8);
            push_u32(out, *v);
            assert(out@ =~= o + (seq![4u8] + u32_bytes(*v)));
        },
        ConstantPoolIndex::Long(v) => {
            out.push(5u8);
            write_u64(out, #[verifier::truncate] (*v as u64));
            assert(out@ =~= o + (seq![5u8] + u64_bytes(*v as u64)));
        },
        ConstantPoolIndex::Double(v) => {
            out.push(6u8);
            write_u64(out, *v);
            assert(out@ =~= o + (seq![6u8] + u64_bytes(*v)));
        },
        ConstantPoolIndex::Class(s) | ConstantPoolIndex::String(s) | ConstantPoolIndex::MethodType(s)
        | ConstantPoolIndex::Module(s) | ConstantPoolIndex::Package(s) => {
            let tag: u8 = match c {
                ConstantPoolIndex::Class(_) => 7,
                ConstantPoolIndex::String(_) => 8,
                ConstantPoolIndex::MethodType(_) => 16,
                ConstantPoolIndex::Module(_) => 19,
                _ => 20,
            };
            out.push(tag);
            let ghost o1 = out@;
            write_index(out, pool, &ConstantPoolIndex::Utf8(s.clone()))?;
            assert(out@ =~= o + (seq![tag] + index_bytes(pool@, Constant::Utf8(s@))->Ok_0));
        },
        ConstantPoolIndex::Fieldref { class, name, descriptor }
        | ConstantPoolIndex::Methodref { class, name, descriptor }
        | ConstantPoolIndex::InterfaceMethodref { class, name, descriptor } => {
            let tag: u8 = match c {
                ConstantPoolIndex::Fieldref { .. } => 9,
                ConstantPoolIndex::Methodref { .. } => 10,
                _ => 11,
            };
            out.push(tag);
            let ghost o1 = out@;
            write_index(out, pool, &ConstantPoolIndex::Class(class.clone()))?;
            let ghost o2 = out@;
            write_index(out, pool, &ConstantPoolIndex::NameAndType(name.clone(), descriptor.clone()))?;
            assert(out@ =~= o + (seq![tag] + (index_bytes(pool@, Constant::Class(class@))->Ok_0
                + index_bytes(pool@, Constant::NameAndType(name@, descriptor@))->Ok_0)));
        },
        ConstantPoolIndex::NameAndType(n, d) => {
            out.push(12u8);
            let ghost o1 = out@;
            write_index(out, pool, &ConstantPoolIndex::Utf8(n.clone()))?;
            let ghost o2 = out@;
            write_index(out, pool, &ConstantPoolIndex::Utf8(d.clone()))?;
            assert(out@ =~= o + (seq![12u8] + (index_bytes(pool@, Constant::Utf8(n@))->Ok_0
                + index_bytes(pool@, Constant::Utf8(d@))->Ok_0)));
        },
        ConstantPoolIndex::MethodHandle { kind, class, name, descriptor } => {
            out.push(15u8);
            out.push(kind.to_u8());
            let ghost o1 = out@;
            let m = ConstantPoolIndex::Methodref { class: class.clone(), name: name.clone(), descriptor: descriptor.clone() };
            let target = match kind {
                MethodHandleReferenceKind::GetField | MethodHandleReferenceKind::GetStatic
                | MethodHandleReferenceKind::PutField | MethodHandleReferenceKind::PutStatic => {
                    ConstantPoolIndex::Fieldref { class: class.clone(), name: name.clone(), descriptor: descriptor.clone() }
                },
                MethodHandleReferenceKind::InvokeInterface => {
                    ConstantPoolIndex::InterfaceMethodref { class: class.clone(), name: name.clone(), descriptor: descriptor.clone() }
                },
                MethodHandleReferenceKind::InvokeStatic | MethodHandleReferenceKind::InvokeSpecial => {
                    if pool.find(&m).is_ok() {
                        m
                    } else {
                        ConstantPoolIndex::InterfaceMethodref { class: class.clone(), name: name.clone(), descriptor: descriptor.clone() }
                    }
                },
                _ => m,
            };
            write_index(out, pool, &target)?;
            assert(out@ =~= o + (seq![15u8] + (seq![crate::raw_pool::ref_kind_byte(*kind)] + index_bytes(pool@, target@)->Ok_0)));
        },
        ConstantPoolIndex::Dynamic { bootstrap_method_attr_index, name, descriptor }
        | ConstantPoolIndex::InvokeDynamic { bootstrap_method_attr_index, name, descriptor } => {
            let tag: u8 = match c {
                ConstantPoolIndex::Dynamic { .. } => 17,
                _ => 18,
            };
            out.push(tag);
            push_u16(out, *bootstrap_method_attr_index);
            let ghost o1 = out@;
            write_index(out, pool, &ConstantPoolIndex::NameAndType(name.clone(), descriptor.clone()))?;
            assert(out@ =~= o + (seq![tag] + (u16_bytes(*bootstrap_method_attr_index)
                + index_bytes(pool@, Constant::NameAndType(name@, descriptor@))->Ok_0)));
        },
        ConstantPoolIndex::Unusable => {
            assert(out@ =~= o + Seq::<u8>::empty());
        },
    }
    Ok(())
}

/// Appends the pool: its count, then its entries.
pub fn write_pool(out: &mut Vec<u8>, pool: &ConstantPool) -> (r: JomResult<()>)
    requires
        pool_wf(pool@),
    ensures
        r is Ok ==> pool_bytes(pool@) is Ok && final(out)@ == old(out)@ + pool_bytes(pool@)->Ok_0,
        r matches Err(e) ==> pool_bytes(pool@) == Err::<Seq<u8>, JomError>(e),
{
    let ghost p = pool@;
    let ghost o = old(out)@;
    push_u16(out, pool.len() as u16);
    let entries = pool.entries();
    let ghost acc = u16_bytes(p.len() as u16);
    let mut i: usize = 1;
    while i < entries.len()
        invariant
            1 <= i,
            p == pool@,
            pool_wf(p),
            entries@.map_values(|e: ConstantPoolIndex| e@) == p,
            out@ == o + acc,
            pool_bytes(p) == then_bytes(Ok(acc), entries_bytes(p, i as int)),
        decreases entries@.len() - i,
    {
        assert(entries@[i as int]@ == p[i as int]);
        let ghost before = out@;
        write_entry(out, pool, &entries[i])?;
        proof {
            let eb = entry_bytes(p, p[i as int])->Ok_0;
            match entries_bytes(p, i + 1) {
                Ok(y) => {
                    assert(acc + (eb + y) =~= (acc + eb) + y);
                },
                Err(_) => {},
            }
            acc = acc + eb;
            assert(out@ =~= o + acc);
        }
        i += 1;
    }
    assert(acc + Seq::<u8>::empty() =~= acc);
    Ok(())
}

} // verus!
