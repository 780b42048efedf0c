use vstd::prelude::*;

use crate::constant_pool::{constant_kind, pool_kinds, pool_wf, Constant, ConstantPool, ConstantPoolIndex};
use crate::error::{Expected, JomError, JomResult, PoolKind};
use crate::raw_pool::{raw_kind, raw_kinds, raw_model, pool_layout, MethodHandleReferenceKind, RawConstantPoolIndex, RawEntry};

verus! {

/// The text of the raw `Utf8` entry at `i`.
pub open spec fn utf8_at(raw: Seq<RawEntry>, i: u16) -> Result<Seq<char>, JomError> {
    if (i as int) < raw.len() {
        match raw[i as int] {
            RawEntry::Utf8(s) => Ok(s),
            e => Err(JomError::ConstantPoolIndexError(Expected::Kind(PoolKind::Utf8), raw_kind(e))),
        }
    } else {
        Err(JomError::OutOfBounds(i))
    }
}

/// The class name that the raw `Class` entry at `i` names.
pub open spec fn class_at(raw: Seq<RawEntry>, i: u16) -> Result<Seq<char>, JomError> {
    if (i as int) < raw.len() {
        match raw[i as int] {
            RawEntry::Class(n) => utf8_at(raw, n),
            e => Err(JomError::ConstantPoolIndexError(Expected::Kind(PoolKind::Class), raw_kind(e))),
        }
    } else {
        Err(JomError::OutOfBounds(i))
    }
}

/// The texts at `n` and then `d`.
pub open spec fn utf8_pair(raw: Seq<RawEntry>, n: u16, d: u16) -> Result<(Seq<char>, Seq<char>), JomError> {
    match utf8_at(raw, n) {
        Ok(a) => match utf8_at(raw, d) {
            Ok(b) => Ok((a, b)),
            Err(e) => Err(e),
        },
        Err(e) => Err(e),
    }
}

/// The name and descriptor of the raw `NameAndType` entry at `i`.
pub open spec fn name_and_type_at(raw: Seq<RawEntry>, i: u16) -> Result<(Seq<char>, Seq<char>), JomError> {
    if (i as int) < raw.len() {
        match raw[i as int] {
            RawEntry::NameAndType(n, d) => utf8_pair(raw, n, d),
            e => Err(JomError::ConstantPoolIndexError(Expected::Kind(PoolKind::NameAndType), raw_kind(e))),
        }
    } else {
        Err(JomError::OutOfBounds(i))
    }
}

/// Class, name and descriptor of a member reference to class `c` and name-and-type `nt`.
pub open spec fn member_of(raw: Seq<RawEntry>, c: u16, nt: u16) -> Result<(Seq<char>, Seq<char>, Seq<char>), JomError> {
    match class_at(raw, c) {
        Ok(cl) => match name_and_type_at(raw, nt) {
            Ok((n, d)) => Ok((cl, n, d)),
            Err(e) => Err(e),
        },
        Err(e) => Err(e),
    }
}

/// The two references of a member reference entry.
pub open spec fn member_parts(e: RawEntry) -> (u16, u16) {
    match e {
        RawEntry::Fieldref(c, nt) => (c, nt),
        RawEntry::Methodref(c, nt) => (c, nt),
        RawEntry::InterfaceMethodref(c, nt) => (c, nt),
        _ => (0, 0),
    }
}

/// The member that the raw entry at `i` refers to, which must be of kind `want`.
pub open spec fn member_at(raw: Seq<RawEntry>, i: u16, want: PoolKind) -> Result<(Seq<char>, Seq<char>, Seq<char>), JomError> {
    if (i as int) < raw.len() {
        if raw_kind(raw[i as int]) == want {
            member_of(raw, member_parts(raw[i as int]).0, member_parts(raw[i as int]).1)
        } else {
            Err(JomError::ConstantPoolIndexError(Expected::Kind(want), raw_kind(raw[i as int])))
        }
    } else {
        Err(JomError::OutOfBounds(i))
    }
}

/// The method that the raw entry at `i` refers to: a `Methodref` or an `InterfaceMethodref`.
pub open spec fn method_or_interface_at(raw: Seq<RawEntry>, i: u16) -> Result<(Seq<char>, Seq<char>, Seq<char>), JomError> {
    if (i as int) < raw.len() {
        let k = raw_kind(raw[i as int]);
        if k == PoolKind::Methodref || k == PoolKind::InterfaceMethodref {
            member_of(raw, member_parts(raw[i as int]).0, member_parts(raw[i as int]).1)
        } else {
            Err(JomError::ConstantPoolIndexError(Expected::MethodOrInterfaceMethod, k))
        }
    } else {
        Err(JomError::OutOfBounds(i))
    }
}

/// The member a method handle of kind `k` refers to: field accesses need a
/// `Fieldref`; `invokevirtual` and `newinvokespecial` a `Methodref`;
/// `invokestatic` and `invokespecial` either method kind; `invokeinterface`
/// an `InterfaceMethodref`.
pub open spec fn handle_target(raw: Seq<RawEntry>, k: MethodHandleReferenceKind, i: u16) -> Result<(Seq<char>, Seq<char>, Seq<char>), JomError> {
    match k {
        MethodHandleReferenceKind::GetField | MethodHandleReferenceKind::GetStatic
        | MethodHandleReferenceKind::PutField | MethodHandleReferenceKind::PutStatic => member_at(raw, i, PoolKind::Fieldref),
        MethodHandleReferenceKind::InvokeVirtual | MethodHandleReferenceKind::NewInvokeSpecial => member_at(raw, i, PoolKind::Methodref),
        MethodHandleReferenceKind::InvokeStatic | MethodHandleReferenceKind::InvokeSpecial => method_or_interface_at(raw, i),
        MethodHandleReferenceKind::InvokeInterface => member_at(raw, i, PoolKind::InterfaceMethodref),
    }
}

pub open spec fn text_entry(r: Result<Seq<char>, JomError>, k: PoolKind) -> Result<Constant, JomError> {
    match r {
        Ok(s) => Ok(if k == PoolKind::Class {
            Constant::Class(s)
        } else if k == PoolKind::String {
            Constant::String(s)
        } else if k == PoolKind::MethodType {
            Constant::MethodType(s)
        } else if k == PoolKind::Module {
            Constant::Module(s)
        } else {
            Constant::Package(s)
        }),
        Err(e) => Err(e),
    }
}

pub open spec fn member_entry(r: Result<(Seq<char>, Seq<char>, Seq<char>), JomError>, k: PoolKind) -> Result<Constant, JomError> {
    match r {
        Ok((c, n, d)) => Ok(if k == PoolKind::Fieldref {
            Constant::Fieldref(c, n, d)
        } else if k == PoolKind::Methodref {
            Constant::Methodref(c, n, d)
        } else {
            Constant::InterfaceMethodref(c, n, d)
        }),
        Err(e) => Err(e),
    }
}

/// The pool indices a raw entry refers to.
pub open spec fn raw_refs(e: RawEntry) -> Seq<u16> {
    match e {
        RawEntry::Class(n) | RawEntry::String(n) | RawEntry::MethodType(n) | RawEntry::Module(n) | RawEntry::Package(n) => seq![n],
        RawEntry::Fieldref(c, nt) | RawEntry::Methodref(c, nt) | RawEntry::InterfaceMethodref(c, nt)
        | RawEntry::NameAndType(c, nt) => seq![c, nt],
        RawEntry::MethodHandle(_, r) => seq![r],
        RawEntry::Dynamic(_, nt) | RawEntry::InvokeDynamic(_, nt) => seq![nt],
        _ => Seq::empty(),
    }
}

/// Whether raw slot `x` refers to slot `j`.
pub open spec fn refs_to(raw: Seq<RawEntry>, x: int, j: int) -> bool {
    0 <= x < raw.len() && ({
        let r = raw_refs(raw[x]);
        (r.len() >= 1 && r[0] as int == j) || (r.len() >= 2 && r[1] as int == j)
    })
}

/// One more step of references: the slots marked, and every slot a marked slot refers to.
pub open spec fn step(raw: Seq<RawEntry>, c: Seq<bool>) -> Seq<bool> {
    Seq::new(c.len(), |j: int| c[j] || exists|x: int| 0 <= x < c.len() && c[x] && refs_to(raw, x, j))
}

/// The slots that a chain of at most `k + 1` references leads to from slot `i`.
pub open spec fn reach_from(raw: Seq<RawEntry>, i: int, k: nat) -> Seq<bool>
    decreases k,
{
    if k == 0 {
        Seq::new(raw.len(), |j: int| refs_to(raw, i, j))
    } else {
        step(raw, reach_from(raw, i, (k - 1) as nat))
    }
}

/// Whether the references of slot `i` lead back to it. A shortest such chain
/// visits no slot twice, so it is no longer than the pool.
pub open spec fn on_cycle(raw: Seq<RawEntry>, i: int) -> bool {
    0 <= i < raw.len() && reach_from(raw, i, raw.len() as nat)[i]
}

/// The resolved value of raw slot `i`: a cycle error when its references
/// lead back to it at any depth, else its references followed, each checked
/// for the kind it must have.
pub open spec fn resolve_entry(raw: Seq<RawEntry>, i: int) -> Result<Constant, JomError> {
    if on_cycle(raw, i) {
        Err(JomError::ConstantPoolCycle(i as usize))
    } else {
        resolve_typed(raw, i)
    }
}

/// The value of raw slot `i` with each reference followed and checked for kind.
pub open spec fn resolve_typed(raw: Seq<RawEntry>, i: int) -> Result<Constant, JomError> {
    match raw[i] {
        RawEntry::Utf8(s) => Ok(Constant::Utf8(s)),
        RawEntry::Integer(v) => Ok(Constant::Integer(v)),
        RawEntry::Float(v) => Ok(Constant::Float(v)),
        RawEntry::Long(v) => Ok(Constant::Long(v)),
        RawEntry::Double(v) => Ok(Constant::Double(v)),
        RawEntry::Class(n) => text_entry(utf8_at(raw, n), PoolKind::Class),
        RawEntry::String(n) => text_entry(utf8_at(raw, n), PoolKind::String),
        RawEntry::MethodType(n) => text_entry(utf8_at(raw, n), PoolKind::MethodType),
        RawEntry::Module(n) => text_entry(utf8_at(raw, n), PoolKind::Module),
        RawEntry::Package(n) => text_entry(utf8_at(raw, n), PoolKind::Package),
        RawEntry::Fieldref(c, nt) => member_entry(member_of(raw, c, nt), PoolKind::Fieldref),
        RawEntry::Methodref(c, nt) => member_entry(member_of(raw, c, nt), PoolKind::Methodref),
        RawEntry::InterfaceMethodref(c, nt) => member_entry(member_of(raw, c, nt), PoolKind::InterfaceMethodref),
        RawEntry::NameAndType(n, d) => match utf8_pair(raw, n, d) {
            Ok((a, b)) => Ok(Constant::NameAndType(a, b)),
            Err(e) => Err(e),
        },
        RawEntry::MethodHandle(k, r) => match handle_target(raw, k, r) {
            Ok((c, n, d)) => Ok(Constant::MethodHandle(k, c, n, d)),
            Err(e) => Err(e),
        },
        RawEntry::Dynamic(bs, nt) => match name_and_type_at(raw, nt) {
            Ok((n, d)) => Ok(Constant::Dynamic(bs, n, d)),
            Err(e) => Err(e),
        },
        RawEntry::InvokeDynamic(bs, nt) => match name_and_type_at(raw, nt) {
            Ok((n, d)) => Ok(Constant::InvokeDynamic(bs, n, d)),
            Err(e) => Err(e),
        },
        RawEntry::Unusable => Ok(Constant::Unusable),
    }
}

/// Slots `i` onward resolved, or the error of the first slot that fails.
pub open spec fn resolve_from(raw: Seq<RawEntry>, i: int) -> Result<Seq<Constant>, JomError>
    decreases raw.len() - i,
{
    if i >= raw.len() || i < 0 {
        Ok(Seq::empty())
    } else {
        match resolve_entry(raw, i) {
            Err(e) => Err(e),
            Ok(c) => match resolve_from(raw, i + 1) {
                Ok(rest) => Ok(seq![c] + rest),
                Err(e) => Err(e),
            },
        }
    }
}

/// The whole pool resolved, or the error of the first slot that fails.
pub open spec fn resolve_pool(raw: Seq<RawEntry>) -> Result<Seq<Constant>, JomError> {
    resolve_from(raw, 0)
}


fn read_utf8(raw: &[RawConstantPoolIndex], i: u16) -> (r: JomResult<String>)
    ensures
        r matches Ok(s) ==> utf8_at(raw_model(raw@), i) == Ok::<Seq<char>, JomError>(s@),
        r matches Err(e) ==> utf8_at(raw_model(raw@), i) == Err::<Seq<char>, JomError>(e),
{
    if (i as usize) < raw.len() {
        match &raw[i as usize] {
            RawConstantPoolIndex::Utf8(s) => Ok(s.clone()),
            e => Err(JomError::new_cp_index(PoolKind::Utf8, e.kind())),
        }
    } else {
        Err(JomError::out_of_bounds(i))
    }
}

fn read_class(raw: &[RawConstantPoolIndex], i: u16) -> (r: JomResult<String>)
    ensures
        r matches Ok(s) ==> class_at(raw_model(raw@), i) == Ok::<Seq<char>, JomError>(s@),
        r matches Err(e) ==> class_at(raw_model(raw@), i) == Err::<Seq<char>, JomError>(e),
{
    if (i as usize) < raw.len() {
        match &raw[i as usize] {
            RawConstantPoolIndex::Class(n) => read_utf8(raw, *n),
            e => Err(JomError::new_cp_index(PoolKind::Class, e.kind())),
        }
    } else {
        Err(JomError::out_of_bounds(i))
    }
}

fn read_utf8_pair(raw: &[RawConstantPoolIndex], n: u16, d: u16) -> (r: JomResult<(String, String)>)
    ensures
        r matches Ok((a, b)) ==> utf8_pair(raw_model(raw@), n, d) == Ok::<(Seq<char>, Seq<char>), JomError>((a@, b@)),
        r matches Err(e) ==> utf8_pair(raw_model(raw@), n, d) == Err::<(Seq<char>, Seq<char>), JomError>(e),
{
    let a = read_utf8(raw, n)?;
    let b = read_utf8(raw, d)?;
    Ok((a, b))
}

fn read_name_and_type(raw: &[RawConstantPoolIndex], i: u16) -> (r: JomResult<(String, String)>)
    ensures
        r matches Ok((a, b)) ==> name_and_type_at(raw_model(raw@), i) == Ok::<(Seq<char>, Seq<char>), JomError>((a@, b@)),
        r matches Err(e) ==> name_and_type_at(raw_model(raw@), i) == Err::<(Seq<char>, Seq<char>), JomError>(e),
{
    if (i as usize) < raw.len() {
        match &raw[i as usize] {
            RawConstantPoolIndex::NameAndType(n, d) => read_utf8_pair(raw, *n, *d),
            e => Err(JomError::new_cp_index(PoolKind::NameAndType, e.kind())),
        }
    } else {
        Err(JomError::out_of_bounds(i))
    }
}

fn read_member(raw: &[RawConstantPoolIndex], c: u16, nt: u16) -> (r: JomResult<(String, String, String)>)
    ensures
        r matches Ok((a, b, d)) ==> member_of(raw_model(raw@), c, nt) == Ok::<(Seq<char>, Seq<char>, Seq<char>), JomError>((a@, b@, d@)),
        r matches Err(e) ==> member_of(raw_model(raw@), c, nt) == Err::<(Seq<char>, Seq<char>, Seq<char>), JomError>(e),
{
    let cl = read_class(raw, c)?;
    let (n, d) = read_name_and_type(raw, nt)?;
    Ok((cl, n, d))
}

fn member_refs(e: &RawConstantPoolIndex) -> (r: (u16, u16))
    ensures
        r == member_parts(e@),
{
    match e {
        RawConstantPoolIndex::Fieldref(c, nt) => (*c, *nt),
        RawConstantPoolIndex::Methodref(c, nt) => (*c, *nt),
        RawConstantPoolIndex::InterfaceMethodref(c, nt) => (*c, *nt),
        _ => (0, 0),
    }
}

fn read_member_at(raw: &[RawConstantPoolIndex], i: u16, want: PoolKind) -> (r: JomResult<(String, String, String)>)
    ensures
        r matches Ok((a, b, d)) ==> member_at(raw_model(raw@), i, want) == Ok::<(Seq<char>, Seq<char>, Seq<char>), JomError>((a@, b@, d@)),
        r matches Err(e) ==> member_at(raw_model(raw@), i, want) == Err::<(Seq<char>, Seq<char>, Seq<char>), JomError>(e),
{
    if (i as usize) < raw.len() {
        let e = &raw[i as usize];
        if e.kind() == want {
            let (c, nt) = member_refs(e);
            read_member(raw, c, nt)
        } else {
            Err(JomError::new_cp_index(want, e.kind()))
        }
    } else {
        Err(JomError::out_of_bounds(i))
    }
}

fn read_method_or_interface(raw: &[RawConstantPoolIndex], i: u16) -> (r: JomResult<(String, String, String)>)
    ensures
        r matches Ok((a, b, d)) ==> method_or_interface_at(raw_model(raw@), i) == Ok::<(Seq<char>, Seq<char>, Seq<char>), JomError>((a@, b@, d@)),
        r matches Err(e) ==> method_or_interface_at(raw_model(raw@), i) == Err::<(Seq<char>, Seq<char>, Seq<char>), JomError>(e),
{
    if (i as usize) < raw.len() {
        let e = &raw[i as usize];
        let k = e.kind();
        if k == PoolKind::Methodref || k == PoolKind::InterfaceMethodref {
            let (c, nt) = member_refs(e);
            read_member(raw, c, nt)
        } else {
            Err(JomError::ConstantPoolIndexError(Expected::MethodOrInterfaceMethod, k))
        }
    } else {
        Err(JomError::out_of_bounds(i))
    }
}

fn read_handle_target(raw: &[RawConstantPoolIndex], k: MethodHandleReferenceKind, i: u16) -> (r: JomResult<(String, String, String)>)
    ensures
        r matches Ok((a, b, d)) ==> handle_target(raw_model(raw@), k, i) == Ok::<(Seq<char>, Seq<char>, Seq<char>), JomError>((a@, b@, d@)),
        r matches Err(e) ==> handle_target(raw_model(raw@), k, i) == Err::<(Seq<char>, Seq<char>, Seq<char>), JomError>(e),
{
    match k {
        MethodHandleReferenceKind::GetField | MethodHandleReferenceKind::GetStatic
        | MethodHandleReferenceKind::PutField | MethodHandleReferenceKind::PutStatic => read_member_at(raw, i, PoolKind::Fieldref),
        MethodHandleReferenceKind::InvokeVirtual | MethodHandleReferenceKind::NewInvokeSpecial => read_member_at(raw, i, PoolKind::Methodref),
        MethodHandleReferenceKind::InvokeStatic | MethodHandleReferenceKind::InvokeSpecial => read_method_or_interface(raw, i),
        MethodHandleReferenceKind::InvokeInterface => read_member_at(raw, i, PoolKind::InterfaceMethodref),
    }
}

fn refs_of(e: &RawConstantPoolIndex) -> (r: (usize, u16, u16))
    ensures
        r.0 == raw_refs(e@).len(),
        r.0 >= 1 ==> r.1 == raw_refs(e@)[0],
        r.0 >= 2 ==> r.2 == raw_refs(e@)[1],
{
    match e {
        RawConstantPoolIndex::Class(n) | RawConstantPoolIndex::String(n) | RawConstantPoolIndex::MethodType(n)
        | RawConstantPoolIndex::Module(n) | RawConstantPoolIndex::Package(n) => (1, *n, 0),
        RawConstantPoolIndex::Fieldref(c, nt) | RawConstantPoolIndex::Methodref(c, nt)
        | RawConstantPoolIndex::InterfaceMethodref(c, nt) | RawConstantPoolIndex::NameAndType(c, nt) => (2, *c, *nt),
        RawConstantPoolIndex::MethodHandle(_, r) => (1, *r, 0),
        RawConstantPoolIndex::Dynamic(_, nt) | RawConstantPoolIndex::InvokeDynamic(_, nt) => (1, *nt, 0),
        _ => (0, 0, 0),
    }
}

/// How deep an entry sits: each reference of an entry that resolves points at a shallower one.
pub open spec fn level(e: RawEntry) -> int {
    match e {
        RawEntry::Class(_) | RawEntry::String(_) | RawEntry::MethodType(_) | RawEntry::Module(_)
        | RawEntry::Package(_) | RawEntry::NameAndType(..) => 1,
        RawEntry::Fieldref(..) | RawEntry::Methodref(..) | RawEntry::InterfaceMethodref(..)
        | RawEntry::Dynamic(..) | RawEntry::InvokeDynamic(..) => 2,
        RawEntry::MethodHandle(..) => 3,
        _ => 0,
    }
}

proof fn lemma_refs_descend(raw: Seq<RawEntry>, x: int, j: int)
    requires
        0 <= x < raw.len(),
        resolve_typed(raw, x) is Ok,
        refs_to(raw, x, j),
    ensures
        0 <= j < raw.len(),
        resolve_typed(raw, j) is Ok,
        level(raw[j]) < level(raw[x]),
{
}

/// A slot that resolves is on no cycle: the slots its references reach all
/// resolve and sit shallower than it.
proof fn lemma_resolved_not_on_cycle(raw: Seq<RawEntry>, i: int)
    requires
        0 <= i < raw.len(),
        resolve_typed(raw, i) is Ok,
    ensures
        !on_cycle(raw, i),
{
    lemma_reach_descends(raw, i, raw.len() as nat);
}

proof fn lemma_reach_descends(raw: Seq<RawEntry>, i: int, k: nat)
    requires
        0 <= i < raw.len(),
        resolve_typed(raw, i) is Ok,
    ensures
        reach_from(raw, i, k).len() == raw.len(),
        forall|j: int| 0 <= j < raw.len() && #[trigger] reach_from(raw, i, k)[j]
            ==> resolve_typed(raw, j) is Ok && level(raw[j]) < level(raw[i]),
    decreases k,
{
    if k == 0 {
        assert forall|j: int| 0 <= j < raw.len() && #[trigger] reach_from(raw, i, k)[j]
            implies resolve_typed(raw, j) is Ok && level(raw[j]) < level(raw[i]) by {
            lemma_refs_descend(raw, i, j);
        }
    } else {
        lemma_reach_descends(raw, i, (k - 1) as nat);
        let c = reach_from(raw, i, (k - 1) as nat);
        assert forall|j: int| 0 <= j < raw.len() && #[trigger] reach_from(raw, i, k)[j]
            implies resolve_typed(raw, j) is Ok && level(raw[j]) < level(raw[i]) by {
            if !c[j] {
                let x = choose|x: int| 0 <= x < c.len() && c[x] && refs_to(raw, x, j);
                lemma_refs_descend(raw, x, j);
            }
        }
    }
}

proof fn lemma_fixpoint(raw: Seq<RawEntry>, i: int, k: nat, m: nat)
    requires
        step(raw, reach_from(raw, i, k)) == reach_from(raw, i, k),
    ensures
        reach_from(raw, i, k + m) == reach_from(raw, i, k),
    decreases m,
{
    if m > 0 {
        lemma_fixpoint(raw, i, k, (m - 1) as nat);
        assert(reach_from(raw, i, k + m) == step(raw, reach_from(raw, i, (k + m - 1) as nat)));
    }
}

fn mark_refs(out: &mut Vec<bool>, raw: &[RawConstantPoolIndex], x: usize)
    requires
        x < raw@.len(),
        old(out)@.len() == raw@.len(),
    ensures
        final(out)@.len() == raw@.len(),
        forall|j: int| 0 <= j < raw@.len() ==> #[trigger] final(out)@[j] == (old(out)@[j] || refs_to(raw_model(raw@), x as int, j)),
{
    let (k, a, b) = refs_of(&raw[x]);
    if k >= 1 && (a as usize) < out.len() {
        out.set(a as usize, true);
    }
    if k >= 2 && (b as usize) < out.len() {
        out.set(b as usize, true);
    }
}

fn next_step(raw: &[RawConstantPoolIndex], c: &Vec<bool>) -> (r: Vec<bool>)
    requires
        c@.len() == raw@.len(),
    ensures
        r@ == step(raw_model(raw@), c@),
{
    let n = raw.len();
    let mut r: Vec<bool> = Vec::new();
    let mut j: usize = 0;
    while j < n
        invariant
            j <= n == raw@.len() == c@.len(),
            r@ == c@.subrange(0, j as int),
        decreases n - j,
    {
        r.push(c[j]);
        j += 1;
        assert(r@ =~= c@.subrange(0, j as int));
    }
    assert(r@ =~= c@);
    let mut x: usize = 0;
    while x < n
        invariant
            x <= n == raw@.len() == c@.len(),
            r@.len() == n,
            forall|j: int| 0 <= j < n ==> #[trigger] r@[j] == (c@[j]
                || exists|y: int| 0 <= y < x && c@[y] && refs_to(raw_model(raw@), y, j)),
        decreases n - x,
    {
        let ghost before = r@;
        if c[x] {
            mark_refs(&mut r, raw, x);
        }
        proof {
            assert forall|j: int| 0 <= j < n implies #[trigger] r@[j] == (c@[j]
                || exists|y: int| 0 <= y < x + 1 && c@[y] && refs_to(raw_model(raw@), y, j)) by {
                if c@[x as int] && refs_to(raw_model(raw@), x as int, j) {
                    assert(0 <= x < x + 1 && c@[x as int] && refs_to(raw_model(raw@), x as int, j));
                }
                if exists|y: int| 0 <= y < x + 1 && c@[y] && refs_to(raw_model(raw@), y, j) {
                    let y = choose|y: int| 0 <= y < x + 1 && c@[y] && refs_to(raw_model(raw@), y, j);
                    if y < x {
                        assert(before[j]);
                    }
                }
            }
        }
        x += 1;
    }
    assert(r@ =~= step(raw_model(raw@), c@));
    r
}

fn same_marks(a: &Vec<bool>, b: &Vec<bool>) -> (r: bool)
    requires
        a@.len() == b@.len(),
    ensures
        r == (a@ == b@),
{
    let mut j: usize = 0;
    while j < a.len()
        invariant
            j <= a@.len() == b@.len(),
            forall|k: int| 0 <= k < j ==> a@[k] == b@[k],
        decreases a@.len() - j,
    {
        if a[j] != b[j] {
            return false;
        }
        j += 1;
    }
    assert(a@ =~= b@);
    true
}

/// Whether the references of slot `i` lead back to it.
pub fn is_on_cycle(raw: &[RawConstantPoolIndex], i: usize) -> (r: bool)
    requires
        i < raw@.len(),
    ensures
        r == on_cycle(raw_model(raw@), i as int),
{
    let n = raw.len();
    let ghost m = raw_model(raw@);
    let mut c: Vec<bool> = Vec::new();
    let mut j: usize = 0;
    while j < n
        invariant
            j <= n == raw@.len(),
            i < n,
            m == raw_model(raw@),
            c@.len() == j,
            forall|k: int| 0 <= k < j ==> #[trigger] c@[k] == refs_to(m, i as int, k),
        decreases n - j,
    {
        let (k, a, b) = refs_of(&raw[i]);
        c.push((k >= 1 && a as usize == j) || (k >= 2 && b as usize == j));
        j += 1;
    }
    assert(c@ =~= reach_from(m, i as int, 0));
    let mut k: usize = 0;
    while k < n
        invariant
            k <= n == raw@.len(),
            i < n,
            m == raw_model(raw@),
            c@ == reach_from(m, i as int, k as nat),
            c@.len() == n,
        decreases n - k,
    {
        let next = next_step(raw, &c);
        if same_marks(&next, &c) {
            proof {
                lemma_fixpoint(m, i as int, k as nat, (n - k) as nat);
            }
            return c[i];
        }
        c = next;
        k += 1;
    }
    c[i]
}

/// Resolves raw slot `i` on its own.
pub fn resolve_index(i: usize, raw: &[RawConstantPoolIndex]) -> (r: JomResult<ConstantPoolIndex>)
    requires
        i < raw@.len(),
    ensures
        r matches Ok(c) ==> resolve_entry(raw_model(raw@), i as int) == Ok::<Constant, JomError>(c@),
        r matches Err(e) ==> resolve_entry(raw_model(raw@), i as int) == Err::<Constant, JomError>(e),
{
    match resolve_by_kind(i, raw) {
        Ok(c) => {
            proof {
                lemma_resolved_not_on_cycle(raw_model(raw@), i as int);
            }
            Ok(c)
        },
        Err(e) => if is_on_cycle(raw, i) {
            Err(JomError::ConstantPoolCycle(i))
        } else {
            Err(e)
        },
    }
}

fn resolve_by_kind(i: usize, raw: &[RawConstantPoolIndex]) -> (r: JomResult<ConstantPoolIndex>)
    requires
        i < raw@.len(),
    ensures
        r matches Ok(c) ==> resolve_typed(raw_model(raw@), i as int) == Ok::<Constant, JomError>(c@),
        r matches Err(e) ==> resolve_typed(raw_model(raw@), i as int) == Err::<Constant, JomError>(e),
{
    match &raw[i] {
        RawConstantPoolIndex::Utf8(s) => Ok(ConstantPoolIndex::Utf8(s.clone())),
        RawConstantPoolIndex::Integer(v) => Ok(ConstantPoolIndex::Integer(*v)),
        RawConstantPoolIndex::Float(v) => Ok(ConstantPoolIndex::Float(*v)),
        RawConstantPoolIndex::Long(v) => Ok(ConstantPoolIndex::Long(*v)),
        RawConstantPoolIndex::Double(v) => Ok(ConstantPoolIndex::Double(*v)),
        RawConstantPoolIndex::Class(n) => Ok(ConstantPoolIndex::Class(read_utf8(raw, *n)?)),
        RawConstantPoolIndex::String(n) => Ok(ConstantPoolIndex::String(read_utf8(raw, *n)?)),
        RawConstantPoolIndex::MethodType(n) => Ok(ConstantPoolIndex::MethodType(read_utf8(raw, *n)?)),
        RawConstantPoolIndex::Module(n) => Ok(ConstantPoolIndex::Module(read_utf8(raw, *n)?)),
        RawConstantPoolIndex::Package(n) => Ok(ConstantPoolIndex::Package(read_utf8(raw, *n)?)),
        RawConstantPoolIndex::Fieldref(c, nt) => {
            let (class, name, descriptor) = read_member(raw, *c, *nt)?;
            Ok(ConstantPoolIndex::Fieldref { class, name, descriptor })
        },
        RawConstantPoolIndex::Methodref(c, nt) => {
            let (class, name, descriptor) = read_member(raw, *c, *nt)?;
            Ok(ConstantPoolIndex::Methodref { class, name, descriptor })
        },
        RawConstantPoolIndex::InterfaceMethodref(c, nt) => {
            let (class, name, descriptor) = read_member(raw, *c, *nt)?;
            Ok(ConstantPoolIndex::InterfaceMethodref { class, name, descriptor })
        },
        RawConstantPoolIndex::NameAndType(n, d) => {
            let (a, b) = read_utf8_pair(raw, *n, *d)?;
            Ok(ConstantPoolIndex::NameAndType(a, b))
        },
        RawConstantPoolIndex::MethodHandle(kind, r) => {
            let (class, name, descriptor) = read_handle_target(raw, *kind, *r)?;
            Ok(ConstantPoolIndex::MethodHandle { kind: *kind, class, name, descriptor })
        },
        RawConstantPoolIndex::Dynamic(bs, nt) => {
            let (name, descriptor) = read_name_and_type(raw, *nt)?;
            Ok(ConstantPoolIndex::Dynamic { bootstrap_method_attr_index: *bs, name, descriptor })
        },
        RawConstantPoolIndex::InvokeDynamic(bs, nt) => {
            let (name, descriptor) = read_name_and_type(raw, *nt)?;
            Ok(ConstantPoolIndex::InvokeDynamic { bootstrap_method_attr_index: *bs, name, descriptor })
        },
        RawConstantPoolIndex::Unusable => Ok(ConstantPoolIndex::Unusable),
    }
}

pub open spec fn prepend_resolved(prefix: Seq<Constant>, r: Result<Seq<Constant>, JomError>) -> Result<Seq<Constant>, JomError> {
    match r {
        Ok(rest) => Ok(prefix + rest),
        Err(e) => Err(e),
    }
}

/// A resolved entry has the kind of its raw entry.
pub proof fn lemma_resolve_keeps_kind(raw: Seq<RawEntry>, i: int)
    requires
        0 <= i < raw.len(),
    ensures
        resolve_entry(raw, i) matches Ok(c) ==> constant_kind(c) == raw_kind(raw[i]),
{
}

/// Resolves every slot of the raw pool, failing with the first slot's error.
/// A raw pool with the file's slot layout gives a resolved pool with it.
pub fn process_cp(raw: &[RawConstantPoolIndex]) -> (r: JomResult<ConstantPool>)
    ensures
        r matches Ok(cp) ==> resolve_pool(raw_model(raw@)) == Ok::<Seq<Constant>, JomError>(cp@),
        r matches Err(e) ==> resolve_pool(raw_model(raw@)) == Err::<Seq<Constant>, JomError>(e),
        r matches Ok(cp) ==> (pool_layout(raw_kinds(raw_model(raw@))) && raw@.len() <= 0xFFFF ==> pool_wf(cp@)),
{
    let ghost m = raw_model(raw@);
    let mut v: Vec<ConstantPoolIndex> = Vec::new();
    let mut i: usize = 0;
    assert(v@.map_values(|e: ConstantPoolIndex| e@) =~= Seq::<Constant>::empty());
    while i < raw.len()
        invariant
            i <= raw@.len(),
            m == raw_model(raw@),
            v@.len() == i,
            resolve_pool(m) == prepend_resolved(v@.map_values(|e: ConstantPoolIndex| e@), resolve_from(m, i as int)),
            forall|j: int| 0 <= j < i ==> constant_kind(#[trigger] v@[j]@) == raw_kind(m[j]),
        decreases raw@.len() - i,
    {
        let ghost before = v@.map_values(|e: ConstantPoolIndex| e@);
        let c = match resolve_index(i, raw) {
            Ok(c) => c,
            Err(e) => return Err(e),
        };
        proof {
            lemma_resolve_keeps_kind(m, i as int);
        }
        v.push(c);
        proof {
            let after = v@.map_values(|e: ConstantPoolIndex| e@);
            assert(after =~= before + seq![c@]);
            match resolve_from(m, i + 1) {
                Ok(rest) => {
                    assert(before + (seq![c@] + rest) =~= after + rest);
                },
                Err(_) => {},
            }
        }
        i += 1;
    }
    let cp = ConstantPool::from_entries(v);
    proof {
        assert(cp@ + Seq::<Constant>::empty() =~= cp@);
        assert(pool_kinds(cp@) =~= raw_kinds(m));
    }
    Ok(cp)
}


proof fn lemma_resolve_from(raw: Seq<RawEntry>, k: int)
    requires
        0 <= k <= raw.len(),
    ensures
        resolve_from(raw, k) is Ok <==> (forall|i: int| k <= i < raw.len() ==> resolve_entry(raw, i) is Ok),
        resolve_from(raw, k) matches Ok(p) ==> p.len() == raw.len() - k
            && forall|i: int| k <= i < raw.len() ==> resolve_entry(raw, i) == Ok::<Constant, JomError>(#[trigger] p[i - k]),
    decreases raw.len() - k,
{
    if k < raw.len() {
        lemma_resolve_from(raw, k + 1);
        match resolve_from(raw, k) {
            Ok(p) => {
                let rest = resolve_from(raw, k + 1)->Ok_0;
                assert forall|i: int| k <= i < raw.len() implies resolve_entry(raw, i) == Ok::<Constant, JomError>(#[trigger] p[i - k]) by {
                    if i > k {
                        assert(p[i - k] == rest[i - (k + 1)]);
                    }
                }
            },
            Err(_) => {
                if resolve_entry(raw, k) is Ok {
                    assert(resolve_from(raw, k + 1) is Err);
                }
            },
        }
    }
}

/// Resolving the whole pool at once agrees with resolving each slot on its
/// own: the pool resolves exactly when every slot does, and then slot `i`
/// holds what resolving `i` alone gives. Both are functions of the raw pool,
/// so resolving the same raw pool twice gives the same entries.
pub proof fn lemma_eager_matches_lazy(raw: Seq<RawEntry>, again: Seq<RawEntry>)
    requires
        again == raw,
    ensures
        resolve_pool(raw) is Ok <==> (forall|i: int| 0 <= i < raw.len() ==> resolve_entry(raw, i) is Ok),
        resolve_pool(raw) matches Ok(p) ==> p.len() == raw.len()
            && forall|i: int| 0 <= i < raw.len() ==> resolve_entry(raw, i) == Ok::<Constant, JomError>(#[trigger] p[i]),
        resolve_pool(raw) == resolve_pool(again),
{
    lemma_resolve_from(raw, 0);
    if let Ok(p) = resolve_pool(raw) {
        assert forall|i: int| 0 <= i < raw.len() implies resolve_entry(raw, i) == Ok::<Constant, JomError>(#[trigger] p[i]) by {
            assert(p[i - 0] == p[i]);
        }
    }
}

/// A slot whose references lead back to it fails to resolve with a cycle
/// error naming the slot, and so does the pool that holds it.
pub proof fn lemma_cycle_detected(raw: Seq<RawEntry>, i: int)
    requires
        0 <= i < raw.len(),
        on_cycle(raw, i),
    ensures
        resolve_entry(raw, i) == Err::<Constant, JomError>(JomError::ConstantPoolCycle(i as usize)),
        resolve_pool(raw) is Err,
{
    lemma_resolve_from(raw, 0);
}

/// A `Class` entry whose name index points at an entry other than `Utf8`
/// fails to resolve with a type mismatch naming the kind found, and so does
/// the pool that holds it.
pub proof fn lemma_class_name_mismatch(raw: Seq<RawEntry>, i: int, n: u16)
    requires
        0 <= i < raw.len(),
        raw[i] == RawEntry::Class(n),
        (n as int) < raw.len(),
        !(raw[n as int] is Utf8),
        !on_cycle(raw, i),
    ensures
        resolve_entry(raw, i) == Err::<Constant, JomError>(
            JomError::ConstantPoolIndexError(Expected::Kind(PoolKind::Utf8), raw_kind(raw[n as int])),
        ),
        resolve_pool(raw) is Err,
{
    lemma_resolve_from(raw, 0);
}

} // verus!
