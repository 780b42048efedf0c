use vstd::prelude::*;

use crate::bytes::{be16, be32, lemma_bytes_of_be16, lemma_bytes_of_be32, u32_bytes};
use crate::attribute::parse_attribute;
use crate::constant_pool::{first_index, pool_utf8, Constant};
use crate::encode::method_attr_bytes;
use crate::method::{method_attr_decoded, MethodAttribute};
use crate::error::JomError;
use crate::pool_writer::{entries_bytes, entry_bytes, index_bytes, pool_bytes, u64_bytes};
use crate::raw_pool::{be64, is_wide_kind, ref_kind_of, parse_pool_from, parse_raw_entry, parse_raw_pool, raw_kind, MethodHandleReferenceKind, RawEntry};
use crate::resolve::{lemma_eager_matches_lazy, raw_refs, resolve_entry, resolve_pool};
use crate::utf8::{from_modified, lemma_modified_round_trip, text_bytes, valid_text, writable_text};
use vstd::utf8::decode_utf8;

verus! {

#[verifier::opaque]
/// Every reference in the raw pool points at the first slot that holds its
/// resolved value, and a handle that may name either kind of method names a
/// `Methodref` whenever the pool holds one with that value.
pub open spec fn canonical(raw: Seq<RawEntry>, p: Seq<Constant>) -> bool {
    &&& forall|i: int, j: int| 0 <= i < raw.len() && 0 <= j < raw_refs(raw[i]).len()
        ==> first_index(p, p[#[trigger] raw_refs(raw[i])[j] as int], 0) == Some(raw_refs(raw[i])[j] as int)
    &&& forall|i: int| 0 <= i < raw.len() ==> match #[trigger] raw[i] {
        RawEntry::MethodHandle(k, r) => (k == MethodHandleReferenceKind::InvokeStatic || k == MethodHandleReferenceKind::InvokeSpecial)
            && (r as int) < p.len() && p[r as int] is InterfaceMethodref ==> first_index(p, Constant::Methodref(
                p[r as int]->InterfaceMethodref_0, p[r as int]->InterfaceMethodref_1, p[r as int]->InterfaceMethodref_2), 0) is None,
        _ => true,
    }
}

proof fn lemma_casts(x: u32, y: u64)
    ensures
        ((x as i32) as u32) == x,
        ((y as i64) as u64) == y,
{
    assert(((x as i32) as u32) == x) by (bit_vector);
    assert(((y as i64) as u64) == y) by (bit_vector);
}

proof fn lemma_u64_bytes(b: Seq<u8>, i: int)
    requires
        0 <= i,
        i + 8 <= b.len(),
    ensures
        u64_bytes(be64(b, i)) == b.subrange(i, i + 8),
{
    let hi = be32(b, i) as int;
    let lo = be32(b, i + 4) as int;
    let v = be64(b, i) as int;
    assert(v == hi * 0x1_0000_0000 + lo) by {
        assert(0 <= hi * 0x1_0000_0000 + lo < 0x1_0000_0000_0000_0000) by (nonlinear_arith)
            requires
                0 <= hi < 0x1_0000_0000,
                0 <= lo < 0x1_0000_0000;
    }
    assert(v / 0x1_0000_0000 == hi && v % 0x1_0000_0000 == lo) by (nonlinear_arith)
        requires
            v == hi * 0x1_0000_0000 + lo,
            0 <= lo < 0x1_0000_0000,
            0 <= hi;
    lemma_bytes_of_be32(b, i);
    lemma_bytes_of_be32(b, i + 4);
    assert(b.subrange(i, i + 8) =~= b.subrange(i, i + 4) + b.subrange(i + 4, i + 8));
}

proof fn lemma_ref_bytes(raw: Seq<RawEntry>, p: Seq<Constant>, i: int, j: int, b: Seq<u8>, at: int)
    requires
        canonical(raw, p),
        0 <= i < raw.len(),
        0 <= j < raw_refs(raw[i]).len(),
        0 <= at,
        at + 2 <= b.len(),
        be16(b, at) == raw_refs(raw[i])[j],
    ensures
        index_bytes(p, p[raw_refs(raw[i])[j] as int]) == Ok::<Seq<u8>, JomError>(b.subrange(at, at + 2)),
{
    reveal(canonical);
    lemma_bytes_of_be16(b, at);
}

/// The tag byte of a raw entry.
pub open spec fn raw_tag(e: RawEntry) -> u8 {
    match e {
        RawEntry::Utf8(_) => 1,
        RawEntry::Integer(_) => 3,
        RawEntry::Float(_) => 4,
        RawEntry::Long(_) => 5,
        RawEntry::Double(_) => 6,
        RawEntry::Class(_) => 7,
        RawEntry::String(_) => 8,
        RawEntry::Fieldref(..) => 9,
        RawEntry::Methodref(..) => 10,
        RawEntry::InterfaceMethodref(..) => 11,
        RawEntry::NameAndType(..) => 12,
        RawEntry::MethodHandle(..) => 15,
        RawEntry::MethodType(_) => 16,
        RawEntry::Dynamic(..) => 17,
        RawEntry::InvokeDynamic(..) => 18,
        RawEntry::Module(_) => 19,
        RawEntry::Package(_) => 20,
        RawEntry::Unusable => 0,
    }
}

/// Where the parts of a parsed entry come from in the bytes.
spec fn parsed_from(b: Seq<u8>, pos: int, e: RawEntry, end: int) -> bool {
    let q = pos + 1;
    &&& 0 <= pos < q <= end <= b.len()
    &&& b[pos] == raw_tag(e)
    &&& match e {
        RawEntry::Utf8(s) => b[pos] == 1 && q + 2 <= end && end == q + 2 + be16(b, q)
            && valid_text(b.subrange(q + 2, end)) && s == decode_utf8(from_modified(b.subrange(q + 2, end))->Some_0),
        RawEntry::Integer(v) => b[pos] == 3 && end == q + 4 && v == be32(b, q) as i32,
        RawEntry::Float(v) => b[pos] == 4 && end == q + 4 && v == be32(b, q),
        RawEntry::Long(v) => b[pos] == 5 && end == q + 8 && v == be64(b, q) as i64,
        RawEntry::Double(v) => b[pos] == 6 && end == q + 8 && v == be64(b, q),
        RawEntry::MethodHandle(k, r) => b[pos] == 15 && end == q + 3 && ref_kind_of(b[q]) == Some(k) && r == be16(b, q + 1),
        RawEntry::Dynamic(bs, nt) | RawEntry::InvokeDynamic(bs, nt) => end == q + 4 && bs == be16(b, q) && nt == be16(b, q + 2),
        RawEntry::Unusable => false,
        _ => (raw_refs(e).len() == 1 && end == q + 2 && raw_refs(e)[0] == be16(b, q))
            || (raw_refs(e).len() == 2 && end == q + 4 && raw_refs(e)[0] == be16(b, q) && raw_refs(e)[1] == be16(b, q + 2)),
    }
}

proof fn lemma_parsed(b: Seq<u8>, pos: int)
    requires
        parse_raw_entry(b, pos) is Ok,
    ensures
        parsed_from(b, pos, parse_raw_entry(b, pos)->Ok_0.0, parse_raw_entry(b, pos)->Ok_0.1),
{
    reveal(parse_raw_entry);
    let t = b[pos];
    if t == 1 {
    } else if t == 5 || t == 6 {
    } else if t == 3 || t == 4 || t == 9 || t == 10 || t == 11 || t == 12 || t == 17 || t == 18 {
    } else if t == 7 || t == 8 || t == 16 || t == 19 || t == 20 {
    } else {
    }
}

/// One entry written back gives the bytes it was read from.
proof fn lemma_entry_round_trip(b: Seq<u8>, pos: int, raw: Seq<RawEntry>, p: Seq<Constant>, i: int)
    requires
        p.len() == raw.len(),
        forall|k: int| 0 <= k < raw.len() ==> #[trigger] resolve_entry(raw, k) == Ok::<Constant, JomError>(p[k]),
        canonical(raw, p),
        0 <= i < raw.len(),
        parse_raw_entry(b, pos) matches Ok((e, end)) && e == raw[i],
    ensures
        entry_bytes(p, p[i]) == Ok::<Seq<u8>, JomError>(b.subrange(pos, parse_raw_entry(b, pos)->Ok_0.1)),
{
    lemma_parsed(b, pos);
    let end = parse_raw_entry(b, pos)->Ok_0.1;
    match raw[i] {
        RawEntry::Utf8(_) => lemma_entry_text(b, pos, end, raw, p, i),
        RawEntry::Integer(_) | RawEntry::Float(_) => lemma_entry_word(b, pos, end, raw, p, i),
        RawEntry::Long(_) | RawEntry::Double(_) => lemma_entry_wide(b, pos, end, raw, p, i),
        RawEntry::Unusable => {},
        RawEntry::Class(_) | RawEntry::String(_) | RawEntry::MethodType(_) | RawEntry::Module(_) | RawEntry::Package(_) => {
            lemma_entry_one_ref(b, pos, end, raw, p, i)
        },
        RawEntry::Fieldref(..) | RawEntry::Methodref(..) | RawEntry::InterfaceMethodref(..) | RawEntry::NameAndType(..) => {
            lemma_entry_two_refs(b, pos, end, raw, p, i)
        },
        RawEntry::MethodHandle(..) => lemma_entry_handle(b, pos, end, raw, p, i),
        RawEntry::Dynamic(..) | RawEntry::InvokeDynamic(..) => lemma_entry_dynamic(b, pos, end, raw, p, i),
    }
}

#[verifier::rlimit(100)]
proof fn lemma_entry_text(b: Seq<u8>, pos: int, end: int, raw: Seq<RawEntry>, p: Seq<Constant>, i: int)
    requires
        canonical(raw, p),
        0 <= i < raw.len(),
        parsed_from(b, pos, raw[i], end),
        p.len() == raw.len(),
        forall|k: int| 0 <= k < raw.len() ==> #[trigger] resolve_entry(raw, k) == Ok::<Constant, JomError>(p[k]),
        raw[i] is Utf8,
    ensures
        entry_bytes(p, p[i]) == Ok::<Seq<u8>, JomError>(b.subrange(pos, end)),
{
    reveal(entry_bytes);
    let q = pos + 1;
    assert(resolve_entry(raw, i) == Ok::<Constant, JomError>(p[i]));
    let s = raw[i]->Utf8_0;
    let x = b.subrange(q + 2, end);
    let u = from_modified(x)->Some_0;
    vstd::utf8::decode_utf8_encode_utf8(u);
    lemma_modified_round_trip(x);
    assert(crate::utf8::modified_bytes(s) == x);
    lemma_bytes_of_be16(b, q);
    assert(writable_text(s));
    assert(b.subrange(pos, end) =~= seq![1u8] + text_bytes(s));
}

#[verifier::rlimit(100)]
proof fn lemma_entry_word(b: Seq<u8>, pos: int, end: int, raw: Seq<RawEntry>, p: Seq<Constant>, i: int)
    requires
        canonical(raw, p),
        0 <= i < raw.len(),
        parsed_from(b, pos, raw[i], end),
        p.len() == raw.len(),
        forall|k: int| 0 <= k < raw.len() ==> #[trigger] resolve_entry(raw, k) == Ok::<Constant, JomError>(p[k]),
        raw[i] is Integer || raw[i] is Float,
    ensures
        entry_bytes(p, p[i]) == Ok::<Seq<u8>, JomError>(b.subrange(pos, end)),
{
    reveal(entry_bytes);
    let q = pos + 1;
    assert(resolve_entry(raw, i) == Ok::<Constant, JomError>(p[i]));
    lemma_casts(be32(b, q), 0);
    lemma_bytes_of_be32(b, q);
    assert(b.subrange(pos, end) =~= seq![b[pos]] + u32_bytes(be32(b, q)));
}

#[verifier::rlimit(100)]
proof fn lemma_entry_wide(b: Seq<u8>, pos: int, end: int, raw: Seq<RawEntry>, p: Seq<Constant>, i: int)
    requires
        canonical(raw, p),
        0 <= i < raw.len(),
        parsed_from(b, pos, raw[i], end),
        p.len() == raw.len(),
        forall|k: int| 0 <= k < raw.len() ==> #[trigger] resolve_entry(raw, k) == Ok::<Constant, JomError>(p[k]),
        raw[i] is Long || raw[i] is Double,
    ensures
        entry_bytes(p, p[i]) == Ok::<Seq<u8>, JomError>(b.subrange(pos, end)),
{
    reveal(entry_bytes);
    let q = pos + 1;
    assert(resolve_entry(raw, i) == Ok::<Constant, JomError>(p[i]));
    lemma_casts(0, be64(b, q));
    lemma_u64_bytes(b, q);
    assert(b.subrange(pos, end) =~= seq![b[pos]] + u64_bytes(be64(b, q)));
}

#[verifier::rlimit(100)]
proof fn lemma_entry_one_ref(b: Seq<u8>, pos: int, end: int, raw: Seq<RawEntry>, p: Seq<Constant>, i: int)
    requires
        canonical(raw, p),
        0 <= i < raw.len(),
        parsed_from(b, pos, raw[i], end),
        p.len() == raw.len(),
        forall|k: int| 0 <= k < raw.len() ==> #[trigger] resolve_entry(raw, k) == Ok::<Constant, JomError>(p[k]),
        raw[i] is Class || raw[i] is String || raw[i] is MethodType || raw[i] is Module || raw[i] is Package,
    ensures
        entry_bytes(p, p[i]) == Ok::<Seq<u8>, JomError>(b.subrange(pos, end)),
{
    reveal(entry_bytes);
    let q = pos + 1;
    assert(resolve_entry(raw, i) == Ok::<Constant, JomError>(p[i]));
    let n = raw_refs(raw[i])[0];
    assert(resolve_entry(raw, n as int) == Ok::<Constant, JomError>(p[n as int]));
    lemma_ref_bytes(raw, p, i, 0, b, q);
    assert(b.subrange(pos, end) =~= seq![b[pos]] + b.subrange(q, q + 2));
}

#[verifier::rlimit(100)]
proof fn lemma_entry_two_refs(b: Seq<u8>, pos: int, end: int, raw: Seq<RawEntry>, p: Seq<Constant>, i: int)
    requires
        canonical(raw, p),
        0 <= i < raw.len(),
        parsed_from(b, pos, raw[i], end),
        p.len() == raw.len(),
        forall|k: int| 0 <= k < raw.len() ==> #[trigger] resolve_entry(raw, k) == Ok::<Constant, JomError>(p[k]),
        raw[i] is Fieldref || raw[i] is Methodref || raw[i] is InterfaceMethodref || raw[i] is NameAndType,
    ensures
        entry_bytes(p, p[i]) == Ok::<Seq<u8>, JomError>(b.subrange(pos, end)),
{
    reveal(entry_bytes);
    let q = pos + 1;
    assert(resolve_entry(raw, i) == Ok::<Constant, JomError>(p[i]));
    let c = raw_refs(raw[i])[0];
    let nt = raw_refs(raw[i])[1];
    assert(resolve_entry(raw, c as int) == Ok::<Constant, JomError>(p[c as int]));
    assert(resolve_entry(raw, nt as int) == Ok::<Constant, JomError>(p[nt as int]));
    lemma_ref_bytes(raw, p, i, 0, b, q);
    lemma_ref_bytes(raw, p, i, 1, b, q + 2);
    assert(b.subrange(pos, end) =~= seq![b[pos]] + (b.subrange(q, q + 2) + b.subrange(q + 2, q + 4)));
}

#[verifier::rlimit(100)]
proof fn lemma_entry_handle(b: Seq<u8>, pos: int, end: int, raw: Seq<RawEntry>, p: Seq<Constant>, i: int)
    requires
        canonical(raw, p),
        0 <= i < raw.len(),
        parsed_from(b, pos, raw[i], end),
        p.len() == raw.len(),
        forall|k: int| 0 <= k < raw.len() ==> #[trigger] resolve_entry(raw, k) == Ok::<Constant, JomError>(p[k]),
        raw[i] is MethodHandle,
    ensures
        entry_bytes(p, p[i]) == Ok::<Seq<u8>, JomError>(b.subrange(pos, end)),
{
    reveal(entry_bytes);
    reveal(canonical);
    let q = pos + 1;
    assert(resolve_entry(raw, i) == Ok::<Constant, JomError>(p[i]));
    let r = raw_refs(raw[i])[0];
    assert(resolve_entry(raw, r as int) == Ok::<Constant, JomError>(p[r as int]));
    lemma_ref_bytes(raw, p, i, 0, b, q + 1);
    assert(crate::raw_pool::ref_kind_byte(raw[i]->MethodHandle_0) == b[q]);
    assert(b.subrange(pos, end) =~= seq![b[pos]] + (seq![b[q]] + b.subrange(q + 1, q + 3)));
}

#[verifier::rlimit(100)]
proof fn lemma_entry_dynamic(b: Seq<u8>, pos: int, end: int, raw: Seq<RawEntry>, p: Seq<Constant>, i: int)
    requires
        canonical(raw, p),
        0 <= i < raw.len(),
        parsed_from(b, pos, raw[i], end),
        p.len() == raw.len(),
        forall|k: int| 0 <= k < raw.len() ==> #[trigger] resolve_entry(raw, k) == Ok::<Constant, JomError>(p[k]),
        raw[i] is Dynamic || raw[i] is InvokeDynamic,
    ensures
        entry_bytes(p, p[i]) == Ok::<Seq<u8>, JomError>(b.subrange(pos, end)),
{
    reveal(entry_bytes);
    let q = pos + 1;
    assert(resolve_entry(raw, i) == Ok::<Constant, JomError>(p[i]));
    let nt = raw_refs(raw[i])[0];
    assert(resolve_entry(raw, nt as int) == Ok::<Constant, JomError>(p[nt as int]));
    lemma_bytes_of_be16(b, q);
    lemma_ref_bytes(raw, p, i, 0, b, q + 2);
    assert(b.subrange(pos, end) =~= seq![b[pos]] + (b.subrange(q, q + 2) + b.subrange(q + 2, q + 4)));
}


proof fn lemma_parse_len(b: Seq<u8>, pos: int, i: int, count: int)
    requires
        i <= count,
        0 <= pos <= b.len(),
        parse_pool_from(b, pos, i, count) is Ok,
    ensures
        parse_pool_from(b, pos, i, count)->Ok_0.0.len() == count - i,
        pos <= parse_pool_from(b, pos, i, count)->Ok_0.1 <= b.len(),
    decreases count - i,
{
    if i < count {
        lemma_parsed(b, pos);
        let (e, q) = parse_raw_entry(b, pos)->Ok_0;
        if is_wide_kind(raw_kind(e)) {
            lemma_parse_len(b, q, i + 2, count);
        } else {
            lemma_parse_len(b, q, i + 1, count);
        }
    }
}

#[verifier::rlimit(100)]
proof fn lemma_entries_round_trip(b: Seq<u8>, raw: Seq<RawEntry>, p: Seq<Constant>, pos: int, i: int)
    requires
        p.len() == raw.len(),
        forall|k: int| 0 <= k < raw.len() ==> #[trigger] resolve_entry(raw, k) == Ok::<Constant, JomError>(p[k]),
        canonical(raw, p),
        1 <= i <= raw.len(),
        0 <= pos <= b.len(),
        parse_pool_from(b, pos, i, raw.len() as int) matches Ok((es, end)) && es == raw.subrange(i, raw.len() as int),
    ensures
        entries_bytes(p, i) == Ok::<Seq<u8>, JomError>(b.subrange(pos, parse_pool_from(b, pos, i, raw.len() as int)->Ok_0.1)),
    decreases raw.len() - i,
{
    let count = raw.len() as int;
    let end = parse_pool_from(b, pos, i, count)->Ok_0.1;
    lemma_parse_len(b, pos, i, count);
    if i >= count {
        assert(b.subrange(pos, end) =~= Seq::<u8>::empty());
    } else {
        lemma_parsed(b, pos);
        let (e, q) = parse_raw_entry(b, pos)->Ok_0;
        let es = parse_pool_from(b, pos, i, count)->Ok_0.0;
        assert(es[0] == raw[i]);
        lemma_entry_round_trip(b, pos, raw, p, i);
        if is_wide_kind(raw_kind(e)) {
            let rest = parse_pool_from(b, q, i + 2, count)->Ok_0.0;
            assert(es == seq![e, RawEntry::Unusable] + rest);
            assert(raw[i + 1] == es[1]);
            assert(rest =~= raw.subrange(i + 2, count)) by {
                assert forall|k: int| 0 <= k < rest.len() implies rest[k] == raw[i + 2 + k] by {
                    assert(es[k + 2] == rest[k]);
                }
            }
            lemma_parse_len(b, q, i + 2, count);
            lemma_entries_round_trip(b, raw, p, q, i + 2);
            assert(resolve_entry(raw, i + 1) == Ok::<Constant, JomError>(p[i + 1]));
            assert(p[i + 1] == Constant::Unusable);
            assert(b.subrange(pos, end) =~= b.subrange(pos, q) + b.subrange(q, end));
            assert(b.subrange(q, end) =~= Seq::<u8>::empty() + b.subrange(q, end));
            reveal(entry_bytes);
        } else {
            let rest = parse_pool_from(b, q, i + 1, count)->Ok_0.0;
            assert(es == seq![e] + rest);
            assert(rest =~= raw.subrange(i + 1, count)) by {
                assert forall|k: int| 0 <= k < rest.len() implies rest[k] == raw[i + 1 + k] by {
                    assert(es[k + 1] == rest[k]);
                }
            }
            lemma_parse_len(b, q, i + 1, count);
            lemma_entries_round_trip(b, raw, p, q, i + 1);
            assert(b.subrange(pos, end) =~= b.subrange(pos, q) + b.subrange(q, end));
        }
    }
}

/// A constant pool read from bytes and resolved, then written back, gives
/// the same bytes, provided every reference in it points at the first slot
/// holding its value (no value is stored twice and referred to by its second
/// copy).
#[verifier::rlimit(100)]
pub proof fn lemma_pool_round_trip(b: Seq<u8>, pos: int)
    requires
        parse_raw_pool(b, pos) is Ok,
        resolve_pool(parse_raw_pool(b, pos)->Ok_0.0) is Ok,
        canonical(parse_raw_pool(b, pos)->Ok_0.0, resolve_pool(parse_raw_pool(b, pos)->Ok_0.0)->Ok_0),
    ensures
        pool_bytes(resolve_pool(parse_raw_pool(b, pos)->Ok_0.0)->Ok_0)
            == Ok::<Seq<u8>, JomError>(b.subrange(pos, parse_raw_pool(b, pos)->Ok_0.1)),
{
    let (raw, end) = parse_raw_pool(b, pos)->Ok_0;
    let p = resolve_pool(raw)->Ok_0;
    let count = be16(b, pos) as int;
    lemma_parse_len(b, pos + 2, 1, count);
    let es = parse_pool_from(b, pos + 2, 1, count)->Ok_0.0;
    assert(raw == seq![RawEntry::Unusable] + es);
    assert(es =~= raw.subrange(1, count));
    lemma_eager_matches_lazy(raw, raw);
    lemma_entries_round_trip(b, raw, p, pos + 2, 1);
    lemma_bytes_of_be16(b, pos);
    assert(b.subrange(pos, end) =~= b.subrange(pos, pos + 2) + b.subrange(pos + 2, end));
}


/// A method attribute that decodes as unknown is written back as the very
/// bytes of its record, name index and payload alike, when its name index is
/// the first slot holding its name.
pub proof fn lemma_unknown_attribute_round_trip(b: Seq<u8>, pos: int, p: Seq<Constant>, a: MethodAttribute)
    requires
        parse_attribute(b, pos) is Ok,
        pool_utf8(p, parse_attribute(b, pos)->Ok_0.0) is Ok,
        first_index(p, Constant::Utf8(pool_utf8(p, parse_attribute(b, pos)->Ok_0.0)->Ok_0), 0)
            == Some(parse_attribute(b, pos)->Ok_0.0 as int),
        method_attr_decoded(p, pool_utf8(p, parse_attribute(b, pos)->Ok_0.0)->Ok_0, parse_attribute(b, pos)->Ok_0.1, a),
        a is Unknown,
    ensures
        method_attr_bytes(p, a) == Ok::<Seq<u8>, JomError>(b.subrange(pos, parse_attribute(b, pos)->Ok_0.2)),
{
    let (n, info, end) = parse_attribute(b, pos)->Ok_0;
    lemma_bytes_of_be16(b, pos);
    lemma_bytes_of_be32(b, pos + 2);
    assert(info.len() == be32(b, pos + 2));
    assert(b.subrange(pos, end) =~= b.subrange(pos, pos + 2) + (b.subrange(pos + 2, pos + 6) + info));
}

} // verus!
