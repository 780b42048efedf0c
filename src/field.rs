use vstd::prelude::*;

use crate::attribute::{field_attr_decoded, field_attr_error, parse_attributes, read_attributes, FieldAttribute, RawAttribute};
use crate::bytes::{be16, read_u16};
use crate::constant_pool::{pool_utf8, Constant, ConstantPool};
use crate::error::{JomError, JomResult};

verus! {

/// A field or method record as it stands in the file.
pub struct RawMemberInfo {
    pub access_flags: u16,
    pub name: u16,
    pub descriptor: u16,
    pub attributes: Vec<RawAttribute>,
}

pub type RawFieldInfo = RawMemberInfo;

/// Flags, name index, descriptor index and attribute records of a member.
pub type RawMember = (u16, u16, u16, Seq<(u16, Seq<u8>)>);

impl View for RawMemberInfo {
    type V = RawMember;

    open spec fn view(&self) -> RawMember {
        (self.access_flags, self.name, self.descriptor, self.attributes@.map_values(|a: RawAttribute| a@))
    }
}

/// The member record at `pos`, and the position after it.
pub open spec fn parse_member(b: Seq<u8>, pos: int) -> Result<(RawMember, int), JomError> {
    if 0 <= pos && pos + 8 <= b.len() {
        match parse_attributes(b, pos + 8, be16(b, pos + 6) as int) {
            Ok((attrs, end)) => Ok(((be16(b, pos), be16(b, pos + 2), be16(b, pos + 4), attrs), end)),
            Err(e) => Err(e),
        }
    } else {
        Err(JomError::Malformed)
    }
}

/// `count` member records from `pos` on, and the position after them.
pub open spec fn parse_members(b: Seq<u8>, pos: int, count: int) -> Result<(Seq<RawMember>, int), JomError>
    decreases count,
{
    if count <= 0 {
        Ok((Seq::empty(), pos))
    } else {
        match parse_member(b, pos) {
            Ok((m, end)) => match parse_members(b, end, count - 1) {
                Ok((rest, e2)) => Ok((seq![m] + rest, e2)),
                Err(e) => Err(e),
            },
            Err(e) => Err(e),
        }
    }
}

impl RawMemberInfo {
    /// Reads the member record at `pos`; returns it with the position after it.
    pub fn read(b: &[u8], pos: usize) -> (r: JomResult<(RawMemberInfo, usize)>)
        ensures
            r matches Ok((m, end)) ==> parse_member(b@, pos as int) == Ok::<(RawMember, int), JomError>((m@, end as int)),
            r matches Err(e) ==> parse_member(b@, pos as int) == Err::<(RawMember, int), JomError>(e),
    {
        let len = b.len();
        if pos > len || len - pos < 8 {
            return Err(JomError::Malformed);
        }
        let access_flags = match read_u16(b, pos) {
            Some(v) => v,
            None => return Err(JomError::Malformed),
        };
        let name = match read_u16(b, pos + 2) {
            Some(v) => v,
            None => return Err(JomError::Malformed),
        };
        let descriptor = match read_u16(b, pos + 4) {
            Some(v) => v,
            None => return Err(JomError::Malformed),
        };
        let count = match read_u16(b, pos + 6) {
            Some(v) => v,
            None => return Err(JomError::Malformed),
        };
        let (attributes, end) = read_attributes(b, pos + 8, count)?;
        Ok((RawMemberInfo { access_flags, name, descriptor, attributes }, end))
    }
}

/// Reads `count` member records from `pos`; returns them with the position after them.
pub fn read_members(b: &[u8], pos: usize, count: u16) -> (r: JomResult<(Vec<RawMemberInfo>, usize)>)
    ensures
        r matches Ok((v, end)) ==> parse_members(b@, pos as int, count as int)
            == Ok::<(Seq<RawMember>, int), JomError>((v@.map_values(|m: RawMemberInfo| m@), end as int)),
        r matches Err(e) ==> parse_members(b@, pos as int, count as int) == Err::<(Seq<RawMember>, int), JomError>(e),
{
    let mut v: Vec<RawMemberInfo> = Vec::new();
    let mut p = pos;
    let mut k: u16 = 0;
    while k < count
        invariant
            k <= count,
            parse_members(b@, pos as int, count as int) == match parse_members(b@, p as int, count - k) {
                Ok((rest, end)) => Ok((v@.map_values(|m: RawMemberInfo| m@) + rest, end)),
                Err(e) => Err(e),
            },
        decreases count - k,
    {
        let ghost before = v@.map_values(|m: RawMemberInfo| m@);
        let (m, end) = RawMemberInfo::read(b, p)?;
        let ghost mv = m@;
        v.push(m);
        proof {
            assert(v@.map_values(|m: RawMemberInfo| m@) =~= before.push(mv));
            match parse_members(b@, end as int, count - k - 1) {
                Ok((rest, e2)) => {
                    assert(before + (seq![mv] + rest) =~= before.push(mv) + rest);
                },
                Err(_) => {},
            }
        }
        p = end;
        k += 1;
    }
    assert(v@.map_values(|m: RawMemberInfo| m@) + Seq::<RawMember>::empty() =~= v@.map_values(|m: RawMemberInfo| m@));
    Ok((v, p))
}

/// A field of a class.
pub struct FieldInfo {
    pub access_flags: u16,
    pub name: String,
    pub descriptor: String,
    pub attributes: Vec<FieldAttribute>,
}

pub open spec fn field_attrs_error(p: Seq<Constant>, raws: Seq<(u16, Seq<u8>)>, i: int) -> Option<JomError>
    decreases raws.len() - i,
{
    if i < 0 || i >= raws.len() {
        None
    } else {
        match pool_utf8(p, raws[i].0) {
            Err(e) => Some(e),
            Ok(n) => match field_attr_error(p, n, raws[i].1) {
                Some(e) => Some(e),
                None => field_attrs_error(p, raws, i + 1),
            },
        }
    }
}

/// Why a field record cannot be decoded, if it cannot: its name, its descriptor, then its attributes.
pub open spec fn field_error(p: Seq<Constant>, m: RawMember) -> Option<JomError> {
    match pool_utf8(p, m.1) {
        Err(e) => Some(e),
        Ok(_) => match pool_utf8(p, m.2) {
            Err(e) => Some(e),
            Ok(_) => field_attrs_error(p, m.3, 0),
        },
    }
}

/// `f` is what the field record `m` decodes to.
pub open spec fn field_decoded(p: Seq<Constant>, m: RawMember, f: FieldInfo) -> bool {
    &&& f.access_flags == m.0
    &&& pool_utf8(p, m.1) == Ok::<Seq<char>, JomError>(f.name@)
    &&& pool_utf8(p, m.2) == Ok::<Seq<char>, JomError>(f.descriptor@)
    &&& f.attributes@.len() == m.3.len()
    &&& forall|i: int| 0 <= i < m.3.len() ==> field_attr_decoded(p, pool_utf8(p, m.3[i].0)->Ok_0, m.3[i].1, #[trigger] f.attributes@[i])
}

impl RawMemberInfo {
    /// Decodes the record as a field.
    pub fn into_field_info(&self, cp: &ConstantPool) -> (r: JomResult<FieldInfo>)
        ensures
            r matches Ok(f) ==> field_error(cp@, self@) is None && field_decoded(cp@, self@, f),
            r matches Err(e) ==> field_error(cp@, self@) == Some(e),
    {
        let name = cp.get_utf8(self.name)?;
        let descriptor = cp.get_utf8(self.descriptor)?;
        let ghost rv = self@.3;
        let mut attributes: Vec<FieldAttribute> = Vec::new();
        let mut k: usize = 0;
        while k < self.attributes.len()
            invariant
                k <= self.attributes@.len(),
                rv == self.attributes@.map_values(|a: RawAttribute| a@),
                attributes@.len() == k,
                pool_utf8(cp@, self.name) == Ok::<Seq<char>, JomError>(name@),
                pool_utf8(cp@, self.descriptor) == Ok::<Seq<char>, JomError>(descriptor@),
                field_attrs_error(cp@, rv, 0) == field_attrs_error(cp@, rv, k as int),
                forall|j: int| 0 <= j < k ==> field_attr_decoded(cp@, pool_utf8(cp@, rv[j].0)->Ok_0, rv[j].1, #[trigger] attributes@[j]),
            decreases self.attributes@.len() - k,
        {
            let a = self.attributes[k].into_field_attr(cp)?;
            attributes.push(a);
            k += 1;
        }
        Ok(FieldInfo { access_flags: self.access_flags, name, descriptor, attributes })
    }
}

} // verus!
