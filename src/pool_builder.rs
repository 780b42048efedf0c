use vstd::prelude::*;

use crate::constant_pool::{constant_kind, first_index, pool_kinds, pool_wf, Constant, ConstantPool, ConstantPoolIndex};
use crate::error::{JomError, JomResult, PoolKind};
use crate::raw_pool::{is_wide_kind, MethodHandleReferenceKind};

verus! {

/// Whether the pool holds `c`.
pub open spec fn in_pool(p: Seq<Constant>, c: Constant) -> bool {
    first_index(p, c, 0) is Some
}

/// The member entry a method handle refers to when it is interned afresh.
pub open spec fn handle_member(k: MethodHandleReferenceKind, c: Seq<char>, n: Seq<char>, d: Seq<char>) -> Constant {
    match k {
        MethodHandleReferenceKind::GetField | MethodHandleReferenceKind::GetStatic
        | MethodHandleReferenceKind::PutField | MethodHandleReferenceKind::PutStatic => Constant::Fieldref(c, n, d),
        MethodHandleReferenceKind::InvokeInterface => Constant::InterfaceMethodref(c, n, d),
        _ => Constant::Methodref(c, n, d),
    }
}

/// The entries that `c` refers to directly.
pub open spec fn direct_deps(c: Constant) -> Seq<Constant> {
    match c {
        Constant::Class(s) => seq![Constant::Utf8(s)],
        Constant::String(s) => seq![Constant::Utf8(s)],
        Constant::MethodType(s) => seq![Constant::Utf8(s)],
        Constant::Module(s) => seq![Constant::Utf8(s)],
        Constant::Package(s) => seq![Constant::Utf8(s)],
        Constant::NameAndType(n, d) => seq![Constant::Utf8(n), Constant::Utf8(d)],
        Constant::Fieldref(c, n, d) => seq![Constant::Class(c), Constant::NameAndType(n, d)],
        Constant::Methodref(c, n, d) => seq![Constant::Class(c), Constant::NameAndType(n, d)],
        Constant::InterfaceMethodref(c, n, d) => seq![Constant::Class(c), Constant::NameAndType(n, d)],
        Constant::MethodHandle(k, c, n, d) => seq![handle_member(k, c, n, d)],
        Constant::Dynamic(_, n, d) => seq![Constant::NameAndType(n, d)],
        Constant::InvokeDynamic(_, n, d) => seq![Constant::NameAndType(n, d)],
        _ => Seq::empty(),
    }
}

/// The most slots interning `c` can add: `c` itself and whatever it refers to.
pub open spec fn max_slots(c: Constant) -> int {
    match c {
        Constant::Long(_) | Constant::Double(_) => 2,
        Constant::Class(_) | Constant::String(_) | Constant::MethodType(_) | Constant::Module(_)
        | Constant::Package(_) => 2,
        Constant::NameAndType(..) => 3,
        Constant::Dynamic(..) | Constant::InvokeDynamic(..) => 4,
        Constant::Fieldref(..) | Constant::Methodref(..) | Constant::InterfaceMethodref(..) => 6,
        Constant::MethodHandle(..) => 7,
        _ => 1,
    }
}

/// How many levels of references lie below `c`.
pub open spec fn depth(c: Constant) -> nat {
    match c {
        Constant::Class(_) | Constant::String(_) | Constant::MethodType(_) | Constant::Module(_)
        | Constant::Package(_) | Constant::NameAndType(..) => 1,
        Constant::Fieldref(..) | Constant::Methodref(..) | Constant::InterfaceMethodref(..)
        | Constant::Dynamic(..) | Constant::InvokeDynamic(..) => 2,
        Constant::MethodHandle(..) => 3,
        _ => 0,
    }
}

pub proof fn lemma_first_index_prefix(p: Seq<Constant>, q: Seq<Constant>, c: Constant, from: int)
    requires
        p.is_prefix_of(q),
        0 <= from,
        first_index(p, c, from) is Some,
    ensures
        first_index(q, c, from) == first_index(p, c, from),
    decreases p.len() - from,
{
    if from < p.len() && p[from] != c {
        lemma_first_index_prefix(p, q, c, from + 1);
    }
}

/// Interning pools: values go in once, each after what it refers to.
///
/// A value is found by a scan for its first occurrence rather than through a
/// value-to-index map. The keys would be strings and entries holding strings,
/// and Verus proves nothing of a map keyed that way, so the dedup law and the
/// exact pool `intern` leaves would rest on nothing checked.
pub struct PoolBuilder {
    pool: ConstantPool,
}

impl View for PoolBuilder {
    type V = Seq<Constant>;

    closed spec fn view(&self) -> Seq<Constant> {
        self.pool@
    }
}

impl PoolBuilder {
    pub open spec fn wf(&self) -> bool {
        pool_wf(self@)
    }

    /// A builder holding only the reserved slot 0.
    pub fn new() -> (r: PoolBuilder)
        ensures
            r.wf(),
            r@ == seq![Constant::Unusable],
    {
        let mut v: Vec<ConstantPoolIndex> = Vec::new();
        v.push(ConstantPoolIndex::Unusable);
        let pool = ConstantPool::from_entries(v);
        assert(pool@ =~= seq![Constant::Unusable]);
        assert(pool_kinds(pool@) =~= seq![PoolKind::Unusable]);
        PoolBuilder { pool }
    }

    /// A builder that goes on from an existing pool, keeping its indices.
    pub fn from_pool(pool: ConstantPool) -> (r: PoolBuilder)
        requires
            pool_wf(pool@),
        ensures
            r.wf(),
            r@ == pool@,
    {
        PoolBuilder { pool }
    }

    pub fn pool(&self) -> (r: &ConstantPool)
        ensures
            r@ == self@,
    {
        &self.pool
    }

    pub fn into_pool(self) -> (r: ConstantPool)
        ensures
            r@ == self@,
            self.wf() ==> pool_wf(r@),
    {
        self.pool
    }

    fn push_entry(&mut self, e: ConstantPoolIndex) -> (r: JomResult<u16>)
        requires
            old(self).wf(),
            e@ != Constant::Unusable,
        ensures
            final(self).wf(),
            r matches Ok(i) ==> i == old(self)@.len() && (if is_wide_kind(constant_kind(e@)) {
                final(self)@ == old(self)@.push(e@).push(Constant::Unusable)
            } else {
                final(self)@ == old(self)@.push(e@)
            }),
            r matches Err(x) ==> x == JomError::TooLarge && final(self)@ == old(self)@
                && old(self)@.len() + (if is_wide_kind(constant_kind(e@)) { 2int } else { 1 }) > 0xFFFF,
    {
        let wide = e.kind() == PoolKind::Long || e.kind() == PoolKind::Double;
        let n = self.pool.len();
        let need: usize = if wide { 2 } else { 1 };
        if n + need > 0xFFFF {
            return Err(JomError::TooLarge);
        }
        let ghost k = constant_kind(e@);
        self.pool.push(e);
        if wide {
            self.pool.push(ConstantPoolIndex::Unusable);
        }
        proof {
            let ko = pool_kinds(old(self)@);
            let kn = pool_kinds(self@);
            assert forall|i: int| 0 <= i < ko.len() implies kn[i] == ko[i] by {}
            assert(kn[n as int] == k);
            if wide {
                assert(kn[n + 1] == PoolKind::Unusable);
            }
        }
        Ok(n as u16)
    }

    /// Interns `e`: the index of its first occurrence if the pool holds it;
    /// otherwise the entries it refers to are interned first, then `e` is
    /// appended. The pool it leaves is `intern_model(old, e)`; it fails, with
    /// `TooLarge`, exactly when that pool would pass 65535 slots.
    pub fn intern(&mut self, e: ConstantPoolIndex) -> (r: JomResult<u16>)
        requires
            old(self).wf(),
        ensures
            final(self).wf(),
            final(self)@.len() <= 0xFFFF,
            old(self)@.is_prefix_of(final(self)@),
            r is Ok <==> intern_model(old(self)@, e@).len() <= 0xFFFF,
            r is Ok ==> final(self)@ == intern_model(old(self)@, e@),
            r matches Ok(i) ==> first_index(final(self)@, e@, 0) == Some(i as int),
            in_pool(old(self)@, e@) ==> r == Ok::<u16, JomError>(first_index(old(self)@, e@, 0)->Some_0 as u16)
                && final(self)@ == old(self)@,
            r matches Ok(i) ==> (!in_pool(old(self)@, e@) ==> forall|j: int| 0 <= j < direct_deps(e@).len()
                ==> found_below(#[trigger] first_index(final(self)@, direct_deps(e@)[j], 0), i as int)),
            !in_pool(old(self)@, e@) && direct_deps(e@).len() == 0 && r is Ok ==> r == Ok::<u16, JomError>(old(self)@.len() as u16)
                && final(self)@ == (if is_wide_kind(constant_kind(e@)) {
                    old(self)@.push(e@).push(Constant::Unusable)
                } else {
                    old(self)@.push(e@)
                }),
            single_slot(e@) && r is Ok ==> final(self)@ == intern_flat(old(self)@, e@),
            final(self)@.len() <= old(self)@.len() + max_slots(e@),
            old(self)@.len() + max_slots(e@) <= 0xFFFF ==> r is Ok,
            r matches Err(x) ==> x == JomError::TooLarge,
        decreases depth(e@),
    {
        let ghost p0 = self@;
        proof {
            lemma_model_prefix(p0, e@);
        }
        if let Ok(i) = self.pool.find(&e) {
            return Ok(i);
        }
        assert(self@[0] == Constant::Unusable) by {
            assert(pool_kinds(self@)[0] == PoolKind::Unusable);
        }
        assert(e@ != Constant::Unusable);
        let ghost deps = direct_deps(e@);
        proof {
            lemma_deps_shallower(e@);
        }
        let ds = dependencies(&e);
        let mut k: usize = 0;
        while k < ds.len()
            invariant
                k <= ds@.len() == deps.len() <= 2,
                forall|j: int| 0 <= j < ds@.len() ==> (#[trigger] ds@[j])@ == deps[j],
                !in_pool(p0, e@),
                p0 == old(self)@,
                deps == direct_deps(e@),
                self.wf(),
                self@.len() <= 0xFFFF,
                p0.is_prefix_of(self@),
                self@.len() <= p0.len() + max_slots(e@) - 1,
                k == 1 ==> self@ == intern_model(p0, deps[0]) && self@.len() <= p0.len() + max_slots(deps[0]),
                k == 2 ==> self@ == intern_model(intern_model(p0, deps[0]), deps[1]),
                k == 0 ==> self@ == p0,
                forall|j: int| 0 <= j < k ==> in_pool(self@, #[trigger] deps[j]),
                forall|j: int| 0 <= j < deps.len() ==> depth(#[trigger] deps[j]) < depth(e@),
                forall|j: int| 0 <= j < k ==> found_below(#[trigger] first_index(self@, deps[j], 0), self@.len() as int),
            decreases ds@.len() - k,
        {
            let ghost before = self@;
            let d = ds[k].duplicate();
            let r1 = self.intern(d);
            assert(self@.len() <= p0.len() + max_slots(e@) - 1) by {
                assert(max_slots(deps[0]) + (if deps.len() >= 2 { max_slots(deps[1]) } else { 0 }) <= max_slots(e@) - 1);
            }
            if r1.is_err() {
                proof {
                    lemma_prefix_trans(p0, before, self@);
                    lemma_model_prefix(p0, e@);
                    assert(intern_model(before, deps[k as int]).len() > 0xFFFF);
                    if k == 0 {
                        assert(intern_model(p0, deps[0]).is_prefix_of(intern_model(p0, e@)));
                    } else {
                        assert(intern_model(intern_model(p0, deps[0]), deps[1]).is_prefix_of(intern_model(p0, e@)));
                    }
                }
                return Err(JomError::TooLarge);
            }
            proof {
                lemma_prefix_trans(p0, before, self@);
                assert forall|j: int| 0 <= j < k + 1 implies in_pool(self@, #[trigger] deps[j])
                    && found_below(#[trigger] first_index(self@, deps[j], 0), self@.len() as int) by {
                    if j < k {
                        lemma_first_index_prefix(before, self@, deps[j], 0);
                    } else {
                        lemma_first_index_found(self@, deps[j], 0);
                    }
                }
                assert(self@.len() <= p0.len() + max_slots(e@) - 1) by {
                    assert(max_slots(deps[0]) + (if deps.len() >= 2 { max_slots(deps[1]) } else { 0 }) <= max_slots(e@) - 1);
                }
            }
            k += 1;
        }
        let ghost p2 = self@;
        proof {
            lemma_model_depth(p0, e@);
            lemma_in_pool_exists(p2, e@, 0);
            if in_pool(p2, e@) {
                let j = choose|j: int| 0 <= j < p2.len() && p2[j] == e@;
                if j < p0.len() {
                    assert(p0[j] == p2[j]);
                    lemma_in_pool_exists(p0, e@, 0);
                }
                if deps.len() >= 2 {
                    lemma_model_depth(intern_model(p0, deps[0]), deps[1]);
                    lemma_model_depth(p0, deps[0]);
                    lemma_model_prefix(p0, deps[0]);
                    if j >= intern_model(p0, deps[0]).len() {
                        assert(depth(p2[j]) <= depth(deps[1]));
                    } else if j >= p0.len() {
                        assert(p2[j] == intern_model(p0, deps[0])[j]);
                        assert(depth(p2[j]) <= depth(deps[0]));
                    }
                } else if deps.len() == 1 {
                    lemma_model_depth(p0, deps[0]);
                }
            }
        }
        let r = self.push_entry(e);
        proof {
            if let Ok(_) = r {
                assert(p2.is_prefix_of(self@));
                lemma_first_index_push(p2, e@, 0);
                if is_wide_kind(constant_kind(e@)) {
                    let q = p2.push(e@);
                    lemma_first_index_prefix(q, self@, e@, 0);
                }
                assert forall|j: int| 0 <= j < deps.len() implies found_below(#[trigger] first_index(self@, deps[j], 0), p2.len() as int) by {
                    lemma_first_index_prefix(p2, self@, deps[j], 0);
                }
            }
        }
        r
    }
}

/// Whether a lookup found its value at an index below `bound`.
pub open spec fn found_below(o: Option<int>, bound: int) -> bool {
    match o {
        Some(k) => k < bound,
        None => false,
    }
}

/// The entries that `e` refers to directly.
fn dependencies(e: &ConstantPoolIndex) -> (r: Vec<ConstantPoolIndex>)
    ensures
        r@.len() == direct_deps(e@).len(),
        forall|j: int| 0 <= j < r@.len() ==> (#[trigger] r@[j])@ == direct_deps(e@)[j],
{
    let mut r: Vec<ConstantPoolIndex> = Vec::new();
    match e {
        ConstantPoolIndex::Class(s) | ConstantPoolIndex::String(s) | ConstantPoolIndex::MethodType(s)
        | ConstantPoolIndex::Module(s) | ConstantPoolIndex::Package(s) => {
            r.push(ConstantPoolIndex::Utf8(s.clone()));
        },
        ConstantPoolIndex::NameAndType(n, d) => {
            r.push(ConstantPoolIndex::Utf8(n.clone()));
            r.push(ConstantPoolIndex::Utf8(d.clone()));
        },
        ConstantPoolIndex::Fieldref { class, name, descriptor }
        | ConstantPoolIndex::Methodref { class, name, descriptor }
        | ConstantPoolIndex::InterfaceMethodref { class, name, descriptor } => {
            r.push(ConstantPoolIndex::Class(class.clone()));
            r.push(ConstantPoolIndex::NameAndType(name.clone(), descriptor.clone()));
        },
        ConstantPoolIndex::MethodHandle { kind, class, name, descriptor } => {
            let target = match kind {
                MethodHandleReferenceKind::GetField | MethodHandleReferenceKind::GetStatic
                | MethodHandleReferenceKind::PutField | MethodHandleReferenceKind::PutStatic => {
                    ConstantPoolIndex::Fieldref { class: class.clone(), name: name.clone(), descriptor: descriptor.clone() }
                },
                MethodHandleReferenceKind::InvokeInterface => {
                    ConstantPoolIndex::InterfaceMethodref { class: class.clone(), name: name.clone(), descriptor: descriptor.clone() }
                },
                _ => ConstantPoolIndex::Methodref { class: class.clone(), name: name.clone(), descriptor: descriptor.clone() },
            };
            r.push(target);
        },
        ConstantPoolIndex::Dynamic { name, descriptor, .. } | ConstantPoolIndex::InvokeDynamic { name, descriptor, .. } => {
            r.push(ConstantPoolIndex::NameAndType(name.clone(), descriptor.clone()));
        },
        _ => {},
    }
    r
}

/// The pool after interning `c` into `p`: `p` itself if it holds `c`; else
/// the entries `c` refers to are interned in order, then `c` is appended
/// (with an `Unusable` slot after a `Long` or `Double`) unless that already
/// brought it in.
pub open spec fn intern_model(p: Seq<Constant>, c: Constant) -> Seq<Constant>
    decreases depth(c),
{
    if in_pool(p, c) {
        p
    } else {
        let d = direct_deps(c);
        let q1 = if d.len() >= 1 && depth(d[0]) < depth(c) { intern_model(p, d[0]) } else { p };
        let q2 = if d.len() >= 2 && depth(d[1]) < depth(c) { intern_model(q1, d[1]) } else { q1 };
        if in_pool(q2, c) {
            q2
        } else if is_wide_kind(constant_kind(c)) {
            q2.push(c).push(Constant::Unusable)
        } else {
            q2.push(c)
        }
    }
}

/// The pool after interning each of `vals` in turn.
pub open spec fn intern_seq(p: Seq<Constant>, vals: Seq<Constant>) -> Seq<Constant>
    decreases vals.len(),
{
    if vals.len() == 0 {
        p
    } else {
        intern_model(intern_seq(p, vals.drop_last()), vals.last())
    }
}

pub proof fn lemma_prefix_trans(a: Seq<Constant>, b: Seq<Constant>, c: Seq<Constant>)
    requires
        a.is_prefix_of(b),
        b.is_prefix_of(c),
    ensures
        a.is_prefix_of(c),
{
    assert forall|i: int| 0 <= i < a.len() implies a[i] == c[i] by {
        assert(a[i] == b[i]);
        assert(b[i] == c[i]);
    }
    assert(a =~= c.subrange(0, a.len() as int));
}

proof fn lemma_prefix_refl(p: Seq<Constant>)
    ensures
        p.is_prefix_of(p),
{
    assert(p =~= p.subrange(0, p.len() as int));
}

proof fn lemma_first_index_found(p: Seq<Constant>, c: Constant, from: int)
    requires
        0 <= from,
    ensures
        first_index(p, c, from) matches Some(j) ==> from <= j < p.len() && p[j] == c,
    decreases p.len() - from,
{
    if from < p.len() && p[from] != c {
        lemma_first_index_found(p, c, from + 1);
    }
}

proof fn lemma_deps_shallower(c: Constant)
    ensures
        forall|j: int| 0 <= j < direct_deps(c).len() ==> depth(#[trigger] direct_deps(c)[j]) < depth(c),
        direct_deps(c).len() <= 2,
{
}

/// What interning `c` appends is no deeper than `c`.
proof fn lemma_model_depth(p: Seq<Constant>, c: Constant)
    ensures
        p.len() <= intern_model(p, c).len(),
        forall|j: int| p.len() <= j < intern_model(p, c).len() ==> depth(#[trigger] intern_model(p, c)[j]) <= depth(c),
    decreases depth(c),
{
    lemma_deps_shallower(c);
    lemma_model_prefix(p, c);
    if !in_pool(p, c) {
        let d = direct_deps(c);
        let q1 = if d.len() >= 1 && depth(d[0]) < depth(c) { intern_model(p, d[0]) } else { p };
        let q2 = if d.len() >= 2 && depth(d[1]) < depth(c) { intern_model(q1, d[1]) } else { q1 };
        let m = intern_model(p, c);
        if d.len() >= 1 {
            lemma_model_depth(p, d[0]);
            lemma_model_prefix(p, d[0]);
        }
        if d.len() >= 2 {
            lemma_model_depth(q1, d[1]);
            lemma_model_prefix(q1, d[1]);
        }
        lemma_model_prefix(p, c);
        assert forall|j: int| p.len() <= j < m.len() implies depth(#[trigger] m[j]) <= depth(c) by {
            if j < q2.len() {
                assert(m[j] == q2[j]);
                if j < q1.len() {
                    assert(q2[j] == q1[j]);
                }
            }
        }
    }
}

/// Interning only appends: the pool before is a prefix of the pool after,
/// and of each pool along the way.
pub proof fn lemma_model_prefix(p: Seq<Constant>, c: Constant)
    ensures
        p.is_prefix_of(intern_model(p, c)),
        !in_pool(p, c) && direct_deps(c).len() >= 1 ==> intern_model(p, direct_deps(c)[0]).is_prefix_of(intern_model(p, c)),
        !in_pool(p, c) && direct_deps(c).len() >= 2 ==> intern_model(intern_model(p, direct_deps(c)[0]), direct_deps(c)[1]).is_prefix_of(intern_model(p, c)),
    decreases depth(c),
{
    if in_pool(p, c) {
        lemma_prefix_refl(p);
    } else {
        let d = direct_deps(c);
        let q1 = if d.len() >= 1 && depth(d[0]) < depth(c) { intern_model(p, d[0]) } else { p };
        let q2 = if d.len() >= 2 && depth(d[1]) < depth(c) { intern_model(q1, d[1]) } else { q1 };
        let m = intern_model(p, c);
        if d.len() >= 1 {
            lemma_model_prefix(p, d[0]);
        } else {
            lemma_prefix_refl(p);
        }
        if d.len() >= 2 {
            lemma_model_prefix(q1, d[1]);
        } else {
            lemma_prefix_refl(q1);
        }
        assert(q2.is_prefix_of(m)) by {
            if in_pool(q2, c) {
                lemma_prefix_refl(q2);
            } else if is_wide_kind(constant_kind(c)) {
                assert(q2 =~= m.subrange(0, q2.len() as int));
            } else {
                assert(q2 =~= m.subrange(0, q2.len() as int));
            }
        }
        lemma_prefix_trans(q1, q2, m);
        lemma_prefix_trans(p, q1, m);
    }
}

proof fn lemma_first_index_push(p: Seq<Constant>, c: Constant, from: int)
    requires
        0 <= from <= p.len(),
        first_index(p, c, from) is None,
    ensures
        first_index(p.push(c), c, from) == Some(p.len() as int),
    decreases p.len() - from,
{
    if from < p.len() {
        lemma_first_index_push(p, c, from + 1);
    }
}


/// Values that refer to nothing and take one slot: `Utf8`, `Integer`, `Float`.
pub open spec fn single_slot(c: Constant) -> bool {
    direct_deps(c).len() == 0 && !is_wide_kind(constant_kind(c)) && c != Constant::Unusable
}

/// The pool after interning the single-slot value `v`.
pub open spec fn intern_flat(p: Seq<Constant>, v: Constant) -> Seq<Constant> {
    if in_pool(p, v) {
        p
    } else {
        p.push(v)
    }
}

/// The pool after interning the single-slot values `vals` in order.
pub open spec fn intern_each(p: Seq<Constant>, vals: Seq<Constant>) -> Seq<Constant>
    decreases vals.len(),
{
    if vals.len() == 0 {
        p
    } else {
        intern_flat(intern_each(p, vals.drop_last()), vals.last())
    }
}

/// The distinct values among `vals` that `p` does not hold.
pub open spec fn fresh_values(p: Seq<Constant>, vals: Seq<Constant>) -> Set<Constant> {
    Set::new(|v: Constant| vals.contains(v) && !in_pool(p, v))
}

proof fn lemma_in_pool_exists(p: Seq<Constant>, c: Constant, from: int)
    requires
        0 <= from,
    ensures
        first_index(p, c, from) is Some <==> exists|j: int| from <= j < p.len() && p[j] == c,
    decreases p.len() - from,
{
    if from < p.len() {
        lemma_in_pool_exists(p, c, from + 1);
        if p[from] != c {
            if exists|j: int| from <= j < p.len() && p[j] == c {
                let j = choose|j: int| from <= j < p.len() && p[j] == c;
                assert(from + 1 <= j);
            }
        }
    }
}

proof fn lemma_intern_each(p: Seq<Constant>, vals: Seq<Constant>)
    ensures
        fresh_values(p, vals).finite(),
        intern_each(p, vals).len() == p.len() + fresh_values(p, vals).len(),
        forall|x: Constant| in_pool(intern_each(p, vals), x) <==> (in_pool(p, x) || vals.contains(x)),
        p.is_prefix_of(intern_each(p, vals)),
    decreases vals.len(),
{
    if vals.len() == 0 {
        assert(fresh_values(p, vals) =~= Set::<Constant>::empty());
        assert(p =~= p.subrange(0, p.len() as int));
    } else {
        let rest = vals.drop_last();
        let v = vals.last();
        lemma_intern_each(p, rest);
        let q = intern_each(p, rest);
        assert forall|x: Constant| vals.contains(x) <==> (rest.contains(x) || x == v) by {
            if vals.contains(x) {
                let j = choose|j: int| 0 <= j < vals.len() && vals[j] == x;
                if j < vals.len() - 1 {
                    assert(rest[j] == x);
                }
            }
            if rest.contains(x) {
                let j = choose|j: int| 0 <= j < rest.len() && rest[j] == x;
                assert(vals[j] == x);
            }
            if x == v {
                assert(vals[vals.len() - 1] == x);
            }
        }
        if in_pool(q, v) {
            assert(fresh_values(p, vals) =~= fresh_values(p, rest));
        } else {
            assert(fresh_values(p, vals) =~= fresh_values(p, rest).insert(v));
            let r = q.push(v);
            assert forall|x: Constant| in_pool(r, x) <==> (in_pool(q, x) || x == v) by {
                lemma_in_pool_exists(q, x, 0);
                lemma_in_pool_exists(r, x, 0);
                if in_pool(q, x) {
                    let j = choose|j: int| 0 <= j < q.len() && q[j] == x;
                    assert(r[j] == x);
                }
                if x == v {
                    assert(r[q.len() as int] == x);
                }
                if in_pool(r, x) && x != v {
                    let j = choose|j: int| 0 <= j < r.len() && r[j] == x;
                    assert(j < q.len());
                    assert(q[j] == x);
                }
            }
            assert(q =~= r.subrange(0, q.len() as int));
            assert(p =~= r.subrange(0, p.len() as int)) by {
                assert forall|i: int| 0 <= i < p.len() implies p[i] == r[i] by {
                    assert(p[i] == q[i]);
                }
            }
        }
    }
}

/// Interning single-slot values one after another: a value interned again
/// keeps the index it got the first time, and the pool grows by exactly the
/// number of distinct values it did not already hold.
pub proof fn lemma_dedup(p: Seq<Constant>, vals: Seq<Constant>)
    requires
        forall|i: int| 0 <= i < vals.len() ==> single_slot(#[trigger] vals[i]),
    ensures
        fresh_values(p, vals).finite(),
        intern_each(p, vals).len() == p.len() + fresh_values(p, vals).len(),
        forall|i: int| 0 <= i < vals.len() ==> #[trigger] first_index(intern_each(p, vals), vals[i], 0)
            == first_index(intern_each(p, vals.subrange(0, i + 1)), vals[i], 0),
{
    lemma_intern_each(p, vals);
    assert forall|i: int| 0 <= i < vals.len() implies #[trigger] first_index(intern_each(p, vals), vals[i], 0)
        == first_index(intern_each(p, vals.subrange(0, i + 1)), vals[i], 0) by {
        lemma_intern_each_prefix(p, vals, i + 1);
        let pre = vals.subrange(0, i + 1);
        assert(pre.drop_last() =~= vals.subrange(0, i));
        assert(pre.last() == vals[i]);
        lemma_intern_each(p, vals.subrange(0, i));
        let q = intern_each(p, vals.subrange(0, i));
        lemma_in_pool_exists(intern_flat(q, vals[i]), vals[i], 0);
        if !in_pool(q, vals[i]) {
            assert(intern_flat(q, vals[i])[q.len() as int] == vals[i]);
        }
        lemma_first_index_prefix(intern_each(p, pre), intern_each(p, vals), vals[i], 0);
    }
}

proof fn lemma_intern_each_prefix(p: Seq<Constant>, vals: Seq<Constant>, k: int)
    requires
        0 <= k <= vals.len(),
    ensures
        intern_each(p, vals.subrange(0, k)).is_prefix_of(intern_each(p, vals)),
    decreases vals.len() - k,
{
    if k == vals.len() {
        assert(vals.subrange(0, k) =~= vals);
        let q = intern_each(p, vals);
        assert(q =~= q.subrange(0, q.len() as int));
    } else {
        lemma_intern_each_prefix(p, vals, k + 1);
        let a = vals.subrange(0, k);
        let b = vals.subrange(0, k + 1);
        assert(b.drop_last() =~= a);
        let qa = intern_each(p, a);
        let qb = intern_each(p, b);
        assert(qa.is_prefix_of(qb)) by {
            assert(qa =~= qb.subrange(0, qa.len() as int));
        }
        let qv = intern_each(p, vals);
        assert(qa =~= qv.subrange(0, qa.len() as int)) by {
            assert forall|i: int| 0 <= i < qa.len() implies qa[i] == qv[i] by {
                assert(qa[i] == qb[i]);
            }
        }
    }
}

} // verus!
