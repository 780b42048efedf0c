use vstd::prelude::*;

use crate::attribute::{copy_bytes, is_named, payload_utf8, RawAttribute};
use crate::field::{RawMember, RawMemberInfo};
use crate::code::{code_decoded, code_error, Code};
use crate::constant_pool::{pool_utf8, Constant, ConstantPool};
use crate::error::{JomError, JomResult};

verus! {

/// An attribute of a method.
pub enum MethodAttribute {
    Code(Code),
    Synthetic,
    Deprecated,
    Signature(String),
    Unknown(String, Vec<u8>),
}

/// The error decoding a method attribute named `name` with payload `info` fails with, if any.
pub open spec fn method_attr_error(p: Seq<Constant>, name: Seq<char>, info: Seq<u8>) -> Option<JomError> {
    if name == "Code"@ {
        code_error(p, info)
    } else if name == "Synthetic"@ || name == "Deprecated"@ {
        if info.len() == 0 {
            None
        } else {
            Some(JomError::Malformed)
        }
    } else if name == "Signature"@ {
        match payload_utf8(p, info) {
            Ok(_) => None,
            Err(e) => Some(e),
        }
    } else {
        None
    }
}

/// `a` is what a method attribute named `name` with payload `info` decodes to.
pub open spec fn method_attr_decoded(p: Seq<Constant>, name: Seq<char>, info: Seq<u8>, a: MethodAttribute) -> bool {
    if name == "Code"@ {
        a matches MethodAttribute::Code(c) && code_decoded(p, info, c)
    } else if name == "Synthetic"@ {
        a is Synthetic
    } else if name == "Deprecated"@ {
        a is Deprecated
    } else if name == "Signature"@ {
        a matches MethodAttribute::Signature(s) && payload_utf8(p, info) == Ok::<Seq<char>, JomError>(s@)
    } else {
        a matches MethodAttribute::Unknown(n, b) && n@ == name && b@ == info
    }
}

impl RawAttribute {
    /// Decodes the attribute as one of a method's.
    pub fn into_method_attr(&self, cp: &ConstantPool) -> (r: JomResult<MethodAttribute>)
        ensures
            r matches Ok(a) ==> pool_utf8(cp@, self.name) is Ok
                && method_attr_error(cp@, pool_utf8(cp@, self.name)->Ok_0, self.info@) is None
                && method_attr_decoded(cp@, pool_utf8(cp@, self.name)->Ok_0, self.info@, a),
            r matches Err(e) ==> match pool_utf8(cp@, self.name) {
                Ok(n) => method_attr_error(cp@, n, self.info@) == Some(e),
                Err(x) => x == e,
            },
    {
        let name = cp.get_utf8(self.name)?;
        if is_named(&name, "Code") {
            Ok(MethodAttribute::Code(Code::read(self.info.as_slice(), cp)?))
        } else if is_named(&name, "Synthetic") || is_named(&name, "Deprecated") {
            if self.info.len() != 0 {
                return Err(JomError::Malformed);
            }
            if is_named(&name, "Synthetic") {
                Ok(MethodAttribute::Synthetic)
            } else {
                Ok(MethodAttribute::Deprecated)
            }
        } else if is_named(&name, "Signature") {
            let i = match crate::bytes::read_u16(self.info.as_slice(), 0) {
                Some(i) => i,
                None => return Err(JomError::Malformed),
            };
            if self.info.len() != 2 {
                return Err(JomError::Malformed);
            }
            Ok(MethodAttribute::Signature(cp.get_utf8(i)?))
        } else {
            Ok(MethodAttribute::Unknown(name, copy_bytes(&self.info)))
        }
    }
}


pub type RawMethodInfo = RawMemberInfo;

/// A method of a class.
pub struct MethodInfo {
    pub access_flags: u16,
    pub name: String,
    pub descriptor: String,
    pub attributes: Vec<MethodAttribute>,
}

pub open spec fn method_attrs_error(p: Seq<Constant>, raws: Seq<(u16, Seq<u8>)>, i: int) -> Option<JomError>
    decreases raws.len() - i,
{
    if i < 0 || i >= raws.len() {
        None
    } else {
        match pool_utf8(p, raws[i].0) {
            Err(e) => Some(e),
            Ok(n) => match method_attr_error(p, n, raws[i].1) {
                Some(e) => Some(e),
                None => method_attrs_error(p, raws, i + 1),
            },
        }
    }
}

/// Why a method record cannot be decoded, if it cannot: its name, its descriptor, then its attributes.
pub open spec fn method_error(p: Seq<Constant>, m: RawMember) -> Option<JomError> {
    match pool_utf8(p, m.1) {
        Err(e) => Some(e),
        Ok(_) => match pool_utf8(p, m.2) {
            Err(e) => Some(e),
            Ok(_) => method_attrs_error(p, m.3, 0),
        },
    }
}

/// `f` is what the method record `m` decodes to.
pub open spec fn method_decoded(p: Seq<Constant>, m: RawMember, f: MethodInfo) -> bool {
    &&& f.access_flags == m.0
    &&& pool_utf8(p, m.1) == Ok::<Seq<char>, JomError>(f.name@)
    &&& pool_utf8(p, m.2) == Ok::<Seq<char>, JomError>(f.descriptor@)
    &&& f.attributes@.len() == m.3.len()
    &&& forall|i: int| 0 <= i < m.3.len() ==> method_attr_decoded(p, pool_utf8(p, m.3[i].0)->Ok_0, m.3[i].1, #[trigger] f.attributes@[i])
}

impl RawMemberInfo {
    /// Decodes the record as a method.
    pub fn into_method_info(&self, cp: &ConstantPool) -> (r: JomResult<MethodInfo>)
        ensures
            r matches Ok(f) ==> method_error(cp@, self@) is None && method_decoded(cp@, self@, f),
            r matches Err(e) ==> method_error(cp@, self@) == Some(e),
    {
        let name = cp.get_utf8(self.name)?;
        let descriptor = cp.get_utf8(self.descriptor)?;
        let ghost rv = self@.3;
        let mut attributes: Vec<MethodAttribute> = Vec::new();
        let mut k: usize = 0;
        while k < self.attributes.len()
            invariant
                k <= self.attributes@.len(),
                rv == self.attributes@.map_values(|a: RawAttribute| a@),
                attributes@.len() == k,
                pool_utf8(cp@, self.name) == Ok::<Seq<char>, JomError>(name@),
                pool_utf8(cp@, self.descriptor) == Ok::<Seq<char>, JomError>(descriptor@),
                method_attrs_error(cp@, rv, 0) == method_attrs_error(cp@, rv, k as int),
                forall|j: int| 0 <= j < k ==> method_attr_decoded(cp@, pool_utf8(cp@, rv[j].0)->Ok_0, rv[j].1, #[trigger] attributes@[j]),
            decreases self.attributes@.len() - k,
        {
            let a = self.attributes[k].into_method_attr(cp)?;
            attributes.push(a);
            k += 1;
        }
        Ok(MethodInfo { access_flags: self.access_flags, name, descriptor, attributes })
    }
}

} // verus!
