use vstd::prelude::*;
use vstd::string::StringSliceAdditionalSpecFns;
use vstd::utf8::{decode_utf8, encode_utf8, encode_utf8_decode_utf8, valid_utf8};

use crate::bytes::{be16, push_all, push_u16, read_u16, slice_to_vec, u16_bytes};
use crate::error::{JomError, JomResult};

verus! {

pub open spec fn prepend_bytes(a: Seq<u8>, r: Option<Seq<u8>>) -> Option<Seq<u8>> {
    match r {
        Some(x) => Some(a + x),
        None => None,
    }
}

/// Whether `m` starts with a surrogate pair in modified UTF-8: a high and a
/// low surrogate, each in its three-byte form.
pub open spec fn is_pair(m: Seq<u8>) -> bool {
    &&& m.len() >= 6
    &&& m[0] == 0xEDu8 && 0xA0u8 <= m[1] <= 0xAFu8 && 0x80u8 <= m[2] <= 0xBFu8
    &&& m[3] == 0xEDu8 && 0xB0u8 <= m[4] <= 0xBFu8 && 0x80u8 <= m[5] <= 0xBFu8
}

/// The code point a surrogate pair at the start of `m` stands for.
pub open spec fn pair_code_point(m: Seq<u8>) -> int {
    ((m[1] - 0xA0) * 64 + (m[2] - 0x80)) * 1024 + ((m[4] - 0xB0) * 64 + (m[5] - 0x80)) + 0x10000
}

/// The four-byte UTF-8 form of code point `cp`.
pub open spec fn four_bytes(cp: int) -> Seq<u8> {
    seq![(0xF0 + cp / 0x40000) as u8, (0x80 + (cp / 0x1000) % 64) as u8, (0x80 + (cp / 64) % 64) as u8, (0x80 + cp % 64) as u8]
}

/// The code point of a four-byte UTF-8 form at the start of `u`.
pub open spec fn four_code_point(u: Seq<u8>) -> int {
    (u[0] % 8) * 0x40000 + (u[1] % 64) * 0x1000 + (u[2] % 64) * 64 + u[3] % 64
}

/// The surrogate pair, in modified UTF-8, of code point `cp` (at least 0x10000).
pub open spec fn pair_bytes(cp: int) -> Seq<u8> {
    let v = cp - 0x10000;
    let hi = v / 1024;
    let lo = v % 1024;
    seq![0xEDu8, (0xA0 + hi / 64) as u8, (0x80 + hi % 64) as u8, 0xEDu8, (0xB0 + lo / 64) as u8, (0x80 + lo % 64) as u8]
}

/// The standard UTF-8 bytes that the modified UTF-8 bytes `m` stand for:
/// `C0 80` is NUL, a surrogate pair is the four-byte form of its code point,
/// and any other byte stands for itself. None where a zero byte or a
/// four-byte lead appears, neither of which modified UTF-8 uses.
pub open spec fn from_modified(m: Seq<u8>) -> Option<Seq<u8>>
    decreases m.len(),
{
    if m.len() == 0 {
        Some(Seq::empty())
    } else if m[0] == 0 || m[0] >= 0xF0 {
        None
    } else if m.len() >= 2 && m[0] == 0xC0 && m[1] == 0x80 {
        prepend_bytes(seq![0u8], from_modified(m.subrange(2, m.len() as int)))
    } else if is_pair(m) {
        prepend_bytes(four_bytes(pair_code_point(m)), from_modified(m.subrange(6, m.len() as int)))
    } else {
        prepend_bytes(seq![m[0]], from_modified(m.subrange(1, m.len() as int)))
    }
}

/// The modified UTF-8 bytes for the standard UTF-8 bytes `u`: NUL becomes
/// `C0 80`, a four-byte form of a supplementary character becomes a
/// surrogate pair, and any other byte stays.
pub open spec fn to_modified(u: Seq<u8>) -> Seq<u8>
    decreases u.len(),
{
    if u.len() == 0 {
        Seq::empty()
    } else if u[0] == 0 {
        seq![0xC0u8, 0x80u8] + to_modified(u.subrange(1, u.len() as int))
    } else if u[0] >= 0xF0 && u.len() >= 4 && 0x10000 <= four_code_point(u) <= 0x10FFFF {
        pair_bytes(four_code_point(u)) + to_modified(u.subrange(4, u.len() as int))
    } else {
        seq![u[0]] + to_modified(u.subrange(1, u.len() as int))
    }
}

/// Text payloads this codec accepts: modified UTF-8 for valid UTF-8.
pub open spec fn valid_text(b: Seq<u8>) -> bool {
    from_modified(b) matches Some(u) && valid_utf8(u)
}

/// The characters a text payload stands for, if it is accepted.
pub open spec fn text_of(b: Seq<u8>) -> Option<Seq<char>> {
    if valid_text(b) {
        Some(decode_utf8(from_modified(b)->Some_0))
    } else {
        None
    }
}

/// The modified UTF-8 bytes of the text `s`.
pub open spec fn modified_bytes(s: Seq<char>) -> Seq<u8> {
    to_modified(encode_utf8(s))
}

/// Whether `s` can be written as a length-prefixed text payload.
pub open spec fn writable_text(s: Seq<char>) -> bool {
    modified_bytes(s).len() <= 0xFFFF
}

/// The length-prefixed bytes of the text `s`.
pub open spec fn text_bytes(s: Seq<char>) -> Seq<u8> {
    u16_bytes(modified_bytes(s).len() as u16) + modified_bytes(s)
}

/// Parse of a length-prefixed text at `pos`: the characters and the position after them.
pub open spec fn parse_text(b: Seq<u8>, pos: int) -> Result<(Seq<char>, int), JomError> {
    if 0 <= pos && pos + 2 <= b.len() && pos + 2 + be16(b, pos) <= b.len() {
        let end = pos + 2 + be16(b, pos);
        match text_of(b.subrange(pos + 2, end)) {
            Some(s) => Ok((s, end)),
            None => Err(JomError::InvalidText),
        }
    } else {
        Err(JomError::Malformed)
    }
}

#[verifier::rlimit(80)]
proof fn lemma_pair_round_trip(m: Seq<u8>)
    requires
        is_pair(m),
    ensures
        four_bytes(pair_code_point(m))[0] >= 0xF0,
        0x10000 <= pair_code_point(m) <= 0x10FFFF,
        four_code_point(four_bytes(pair_code_point(m))) == pair_code_point(m),
        pair_bytes(pair_code_point(m)) == m.subrange(0, 6),
{
    let a = (m[1] - 0xA0) as int;
    let b = (m[2] - 0x80) as int;
    let c = (m[4] - 0xB0) as int;
    let d = (m[5] - 0x80) as int;
    let hi = a * 64 + b;
    let lo = c * 64 + d;
    let v = hi * 1024 + lo;
    let cp = v + 0x10000;
    assert(0 <= hi < 1024 && 0 <= lo < 1024) by (nonlinear_arith)
        requires
            0 <= a < 16,
            0 <= b < 64,
            0 <= c < 16,
            0 <= d < 64,
            hi == a * 64 + b,
            lo == c * 64 + d;
    assert(v / 1024 == hi && v % 1024 == lo) by (nonlinear_arith)
        requires
            v == hi * 1024 + lo,
            0 <= lo < 1024,
            0 <= hi;
    assert(hi / 64 == a && hi % 64 == b && lo / 64 == c && lo % 64 == d) by (nonlinear_arith)
        requires
            hi == a * 64 + b,
            lo == c * 64 + d,
            0 <= b < 64,
            0 <= d < 64,
            0 <= a,
            0 <= c;
    assert(0x10000 <= cp < 0x110000) by (nonlinear_arith)
        requires
            cp == hi * 1024 + lo + 0x10000,
            0 <= hi < 1024,
            0 <= lo < 1024;
    let f = four_bytes(cp);
    let q0 = cp / 0x40000;
    let q1 = (cp / 0x1000) % 64;
    let q2 = (cp / 64) % 64;
    let q3 = cp % 64;
    assert(cp == q0 * 0x40000 + q1 * 0x1000 + q2 * 64 + q3 && 0 <= q0 <= 4 && 0 <= q1 < 64 && 0 <= q2 < 64 && 0 <= q3 < 64)
        by (nonlinear_arith)
        requires
            q0 == cp / 0x40000,
            q1 == (cp / 0x1000) % 64,
            q2 == (cp / 64) % 64,
            q3 == cp % 64,
            0x10000 <= cp < 0x110000;
    assert(f[0] == 0xF0 + q0 && f[1] == 0x80 + q1 && f[2] == 0x80 + q2 && f[3] == 0x80 + q3);
    assert((0xF0 + q0) % 8 == q0 && (0x80 + q1) % 64 == q1 && (0x80 + q2) % 64 == q2 && (0x80 + q3) % 64 == q3)
        by (nonlinear_arith)
        requires
            0 <= q0 <= 4,
            0 <= q1 < 64,
            0 <= q2 < 64,
            0 <= q3 < 64;
    assert(four_code_point(f) == cp);
    assert(pair_bytes(cp) =~= m.subrange(0, 6));
}

/// Modified UTF-8 bytes turned into standard UTF-8 and back are unchanged.
pub proof fn lemma_modified_round_trip(m: Seq<u8>)
    requires
        from_modified(m) is Some,
    ensures
        to_modified(from_modified(m)->Some_0) == m,
    decreases m.len(),
{
    if m.len() > 0 {
        let u = from_modified(m)->Some_0;
        if m.len() >= 2 && m[0] == 0xC0 && m[1] == 0x80 {
            let rest = m.subrange(2, m.len() as int);
            lemma_modified_round_trip(rest);
            assert(u.subrange(1, u.len() as int) =~= from_modified(rest)->Some_0);
            assert(seq![0xC0u8, 0x80u8] + rest =~= m);
        } else if is_pair(m) {
            let rest = m.subrange(6, m.len() as int);
            lemma_modified_round_trip(rest);
            lemma_pair_round_trip(m);
            let f = four_bytes(pair_code_point(m));
            assert(u.subrange(4, u.len() as int) =~= from_modified(rest)->Some_0);
            assert(four_code_point(u) == four_code_point(f));
            assert(m.subrange(0, 6) + rest =~= m);
        } else {
            let rest = m.subrange(1, m.len() as int);
            lemma_modified_round_trip(rest);
            assert(u.subrange(1, u.len() as int) =~= from_modified(rest)->Some_0);
            assert(seq![m[0]] + rest =~= m);
        }
    }
}

/// Relies on std::str::from_utf8: it succeeds exactly on valid UTF-8, and the
/// string it returns is made of the given bytes.
#[verifier::external_body]
fn str_from_utf8(b: &[u8]) -> (r: Option<&str>)
    ensures
        r is Some <==> valid_utf8(b@),
        r matches Some(s) ==> s.spec_bytes() == b@,
{
    std::str::from_utf8(b).ok()
}

/// The standard UTF-8 bytes that the modified UTF-8 bytes `m` stand for.
#[verifier::rlimit(80)]
pub fn modified_to_standard(m: &[u8]) -> (r: Option<Vec<u8>>)
    ensures
        r matches Some(u) ==> from_modified(m@) == Some(u@),
        r is None ==> from_modified(m@) is None,
{
    let n = m.len();
    let mut u: Vec<u8> = Vec::new();
    let mut i: usize = 0;
    assert(m@.subrange(0, n as int) =~= m@);
    proof {
        match from_modified(m@) {
            Some(x) => assert(u@ + x =~= x),
            None => {},
        }
    }
    while i < n
        invariant
            i <= n == m@.len(),
            from_modified(m@) == prepend_bytes(u@, from_modified(m@.subrange(i as int, n as int))),
        decreases n - i,
    {
        let ghost t = m@.subrange(i as int, n as int);
        let ghost before = u@;
        let c = m[i];
        if c == 0 || c >= 0xF0 {
            return None;
        }
        if n - i >= 2 && c == 0xC0 && m[i + 1] == 0x80 {
            u.push(0u8);
            proof {
                assert(t.subrange(2, t.len() as int) =~= m@.subrange(i + 2, n as int));
                assert(u@ =~= before + seq![0u8]);
                match from_modified(m@.subrange(i + 2, n as int)) {
                    Some(x) => assert(before + (seq![0u8] + x) =~= u@ + x),
                    None => {},
                }
            }
            i += 2;
        } else if n - i >= 6 && c == 0xED && 0xA0 <= m[i + 1] && m[i + 1] <= 0xAF && 0x80 <= m[i + 2] && m[i + 2] <= 0xBF
            && m[i + 3] == 0xED && 0xB0 <= m[i + 4] && m[i + 4] <= 0xBF && 0x80 <= m[i + 5] && m[i + 5] <= 0xBF {
            let cp: u32 = ((m[i + 1] - 0xA0) as u32 * 64 + (m[i + 2] - 0x80) as u32) * 1024
                + ((m[i + 4] - 0xB0) as u32 * 64 + (m[i + 5] - 0x80) as u32) + 0x10000;
            assert(cp == pair_code_point(t));
            u.push((0xF0 + cp / 0x40000) as u8);
            u.push((0x80 + (cp / 0x1000) % 64) as u8);
            u.push((0x80 + (cp / 64) % 64) as u8);
            u.push((0x80 + cp % 64) as u8);
            proof {
                assert(is_pair(t));
                assert(t.subrange(6, t.len() as int) =~= m@.subrange(i + 6, n as int));
                assert(u@ =~= before + four_bytes(pair_code_point(t)));
                match from_modified(m@.subrange(i + 6, n as int)) {
                    Some(x) => assert(before + (four_bytes(pair_code_point(t)) + x) =~= u@ + x),
                    None => {},
                }
            }
            i += 6;
        } else {
            u.push(c);
            proof {
                assert(!is_pair(t));
                assert(t.subrange(1, t.len() as int) =~= m@.subrange(i + 1, n as int));
                assert(u@ =~= before + seq![c]);
                match from_modified(m@.subrange(i + 1, n as int)) {
                    Some(x) => assert(before + (seq![c] + x) =~= u@ + x),
                    None => {},
                }
            }
            i += 1;
        }
    }
    assert(u@ + Seq::<u8>::empty() =~= u@);
    Some(u)
}

fn four_point(u: &[u8], i: usize) -> (r: u32)
    requires
        i + 4 <= u@.len(),
    ensures
        r == four_code_point(u@.subrange(i as int, u@.len() as int)),
{
    (u[i] % 8) as u32 * 0x40000 + (u[i + 1] % 64) as u32 * 0x1000 + (u[i + 2] % 64) as u32 * 64 + (u[i + 3] % 64) as u32
}

/// The modified UTF-8 bytes for the standard UTF-8 bytes `u`.
pub fn standard_to_modified(u: &[u8]) -> (r: Vec<u8>)
    ensures
        r@ == to_modified(u@),
{
    let n = u.len();
    let mut m: Vec<u8> = Vec::new();
    let mut i: usize = 0;
    assert(u@.subrange(0, n as int) =~= u@);
    assert(m@ + to_modified(u@) =~= to_modified(u@));
    while i < n
        invariant
            i <= n == u@.len(),
            to_modified(u@) == m@ + to_modified(u@.subrange(i as int, n as int)),
        decreases n - i,
    {
        let ghost t = u@.subrange(i as int, n as int);
        let ghost before = m@;
        let c = u[i];
        if c == 0 {
            m.push(0xC0u8);
            m.push(0x80u8);
            proof {
                assert(t.subrange(1, t.len() as int) =~= u@.subrange(i + 1, n as int));
                assert(before + (seq![0xC0u8, 0x80u8] + to_modified(u@.subrange(i + 1, n as int)))
                    =~= m@ + to_modified(u@.subrange(i + 1, n as int)));
            }
            i += 1;
        } else if c >= 0xF0 && n - i >= 4 && 0x10000 <= four_point(u, i) && four_point(u, i) <= 0x10FFFF {
            let cp = four_point(u, i);
            let v: u32 = cp - 0x10000;
            let hi = v / 1024;
            let lo = v % 1024;
            m.push(0xEDu8);
            m.push((0xA0 + hi / 64) as u8);
            m.push((0x80 + hi % 64) as u8);
            m.push(0xEDu8);
            m.push((0xB0 + lo / 64) as u8);
            m.push((0x80 + lo % 64) as u8);
            proof {
                assert(t.subrange(4, t.len() as int) =~= u@.subrange(i + 4, n as int));
                assert(m@ =~= before + pair_bytes(four_code_point(t)));
                assert(before + (pair_bytes(four_code_point(t)) + to_modified(u@.subrange(i + 4, n as int)))
                    =~= m@ + to_modified(u@.subrange(i + 4, n as int)));
            }
            i += 4;
        } else {
            m.push(c);
            proof {
                assert(t.subrange(1, t.len() as int) =~= u@.subrange(i + 1, n as int));
                assert(before + (seq![c] + to_modified(u@.subrange(i + 1, n as int)))
                    =~= m@ + to_modified(u@.subrange(i + 1, n as int)));
            }
            i += 1;
        }
    }
    assert(m@ + Seq::<u8>::empty() =~= m@);
    m
}

/// Decodes the modified UTF-8 bytes `b` as text.
pub fn decode_text(b: &[u8]) -> (r: JomResult<String>)
    ensures
        r is Ok <==> valid_text(b@),
        r matches Ok(s) ==> text_of(b@) == Some(s@),
        r matches Err(e) ==> e == JomError::InvalidText,
{
    let u = match modified_to_standard(b) {
        Some(u) => u,
        None => return Err(JomError::InvalidText),
    };
    match str_from_utf8(u.as_slice()) {
        Some(s) => {
            let r = s.to_owned();
            proof {
                encode_utf8_decode_utf8(s@);
            }
            Ok(r)
        },
        None => Err(JomError::InvalidText),
    }
}

/// Reads a length-prefixed text at `pos`; returns it with the position after it.
pub fn read_text(b: &[u8], pos: usize) -> (r: JomResult<(String, usize)>)
    ensures
        r matches Ok((s, end)) ==> parse_text(b@, pos as int) == Ok::<(Seq<char>, int), JomError>((s@, end as int)),
        r matches Err(e) ==> parse_text(b@, pos as int) == Err::<(Seq<char>, int), JomError>(e),
{
    let n = match read_u16(b, pos) {
        Some(n) => n as usize,
        None => return Err(JomError::Malformed),
    };
    if b.len() - (pos + 2) < n {
        return Err(JomError::Malformed);
    }
    let end = pos + 2 + n;
    let v = slice_to_vec(b, pos + 2, end);
    let s = decode_text(v.as_slice())?;
    Ok((s, end))
}

/// Appends `s` as length-prefixed modified UTF-8.
pub fn write_text(out: &mut Vec<u8>, s: &str) -> (r: JomResult<()>)
    ensures
        r is Ok <==> writable_text(s@),
        r is Ok ==> final(out)@ == old(out)@ + text_bytes(s@),
        r matches Err(e) ==> e == JomError::TooLarge,
        r is Err ==> final(out)@ == old(out)@,
{
    let m = standard_to_modified(s.as_bytes());
    if m.len() > 0xFFFF {
        return Err(JomError::TooLarge);
    }
    push_u16(out, m.len() as u16);
    push_all(out, m.as_slice());
    assert(final(out)@ =~= old(out)@ + text_bytes(s@));
    Ok(())
}

/// A string whose modified UTF-8 form fits a 16-bit length.
pub struct ModifiedUtf8(String);

impl ModifiedUtf8 {
    pub closed spec fn chars(&self) -> Seq<char> {
        self.0@
    }

    pub closed spec fn wf(&self) -> bool {
        writable_text(self.0@)
    }

    /// Accepts `value` when its modified UTF-8 form is at most 65535 bytes.
    pub fn try_from(value: String) -> (r: JomResult<ModifiedUtf8>)
        ensures
            r is Ok <==> writable_text(value@),
            r matches Ok(m) ==> m.chars() == value@ && m.wf(),
            r matches Err(e) ==> e == JomError::TooLarge,
    {
        let m = standard_to_modified(value.as_str().as_bytes());
        if m.len() > 0xFFFF {
            return Err(JomError::TooLarge);
        }
        Ok(ModifiedUtf8(value))
    }

    pub fn to_string(&self) -> (r: String)
        ensures
            r@ == self.chars(),
    {
        self.0.clone()
    }

    /// Reads a length-prefixed modified UTF-8 string at `pos`.
    pub fn read_options(b: &[u8], pos: usize) -> (r: JomResult<(ModifiedUtf8, usize)>)
        ensures
            r matches Ok((m, end)) ==> parse_text(b@, pos as int) == Ok::<(Seq<char>, int), JomError>((m.chars(), end as int)),
            r matches Err(e) ==> parse_text(b@, pos as int) == Err::<(Seq<char>, int), JomError>(e),
    {
        let (s, end) = read_text(b, pos)?;
        Ok((ModifiedUtf8(s), end))
    }

    /// Appends the string, length-prefixed.
    pub fn write_options(&self, out: &mut Vec<u8>)
        requires
            self.wf(),
        ensures
            final(out)@ == old(out)@ + text_bytes(self.chars()),
    {
        let _ = write_text(out, self.0.as_str());
    }
}

} // verus!
