use vstd::prelude::*;

use crate::attribute::{code_attr_decoded, code_attr_error, parse_attributes, read_attributes, CodeAttribute, RawAttribute};
use crate::bytes::{be16, be32, read_u16, read_u32, slice_to_vec};
use crate::constant_pool::{pool_class, pool_utf8, Constant, ConstantPool};
use crate::error::{JomError, JomResult};
use crate::instruction::{decode_instructions, offsets_placed, stream_bytes, stream_error, switches_counted, Instruction};

verus! {

/// One row of a code body's exception table. A `catch_type` of `None`
/// catches every exception (pool index 0).
pub struct Exception {
    pub start_pc: u16,
    pub end_pc: u16,
    pub handler_pc: u16,
    pub catch_type: Option<String>,
}

/// A method body.
pub struct Code {
    pub max_stack: u16,
    pub max_locals: u16,
    pub instructions: Vec<(u32, Instruction)>,
    pub exception_table: Vec<Exception>,
    pub attributes: Vec<CodeAttribute>,
}

pub open spec fn opt_text(o: Option<String>) -> Option<Seq<char>> {
    match o {
        Some(s) => Some(s@),
        None => None,
    }
}

/// Where a `Code` payload's parts lie: the end of the bytecode, the number
/// of exception rows, and the attribute records.
pub open spec fn code_layout(info: Seq<u8>) -> Result<(int, int, Seq<(u16, Seq<u8>)>), JomError> {
    if info.len() < 8 || 8 + be32(info, 4) + 2 > info.len() {
        Err(JomError::Malformed)
    } else {
        let ce = 8 + be32(info, 4);
        let n = be16(info, ce) as int;
        let at = ce + 2 + 8 * n;
        if at + 2 > info.len() {
            Err(JomError::Malformed)
        } else {
            match parse_attributes(info, at + 2, be16(info, at) as int) {
                Ok((raws, end)) => if end == info.len() {
                    Ok((ce, n, raws))
                } else {
                    Err(JomError::Malformed)
                },
                Err(e) => Err(e),
            }
        }
    }
}

/// The class an exception row catches: none for index 0.
pub open spec fn catch_type_at(p: Seq<Constant>, idx: u16) -> Result<Option<Seq<char>>, JomError> {
    if idx == 0 {
        Ok(None)
    } else {
        match pool_class(p, idx) {
            Ok(s) => Ok(Some(s)),
            Err(e) => Err(e),
        }
    }
}

/// Where exception row `i` starts.
pub open spec fn row_at(ce: int, i: int) -> int {
    ce + 2 + 8 * i
}

pub open spec fn rows_error(p: Seq<Constant>, info: Seq<u8>, ce: int, i: int, n: int) -> Option<JomError>
    decreases n - i,
{
    if i < 0 || i >= n {
        None
    } else {
        match catch_type_at(p, be16(info, row_at(ce, i) + 6)) {
            Err(e) => Some(e),
            Ok(_) => rows_error(p, info, ce, i + 1, n),
        }
    }
}

pub open spec fn attrs_error(p: Seq<Constant>, raws: Seq<(u16, Seq<u8>)>, i: int) -> Option<JomError>
    decreases raws.len() - i,
{
    if i < 0 || i >= raws.len() {
        None
    } else {
        match pool_utf8(p, raws[i].0) {
            Err(e) => Some(e),
            Ok(n) => match code_attr_error(p, n, raws[i].1) {
                Some(e) => Some(e),
                None => attrs_error(p, raws, i + 1),
            },
        }
    }
}

/// Why a `Code` payload cannot be decoded, if it cannot: its layout first,
/// then its bytecode, its exception table, and its attributes.
pub open spec fn code_error(p: Seq<Constant>, info: Seq<u8>) -> Option<JomError> {
    match code_layout(info) {
        Err(e) => Some(e),
        Ok((ce, n, raws)) => match stream_error(info.subrange(8, ce)) {
            Some(e) => Some(e),
            None => match rows_error(p, info, ce, 0, n) {
                Some(e) => Some(e),
                None => attrs_error(p, raws, 0),
            },
        },
    }
}

pub open spec fn exception_decoded(p: Seq<Constant>, info: Seq<u8>, at: int, x: Exception) -> bool {
    &&& x.start_pc == be16(info, at)
    &&& x.end_pc == be16(info, at + 2)
    &&& x.handler_pc == be16(info, at + 4)
    &&& catch_type_at(p, be16(info, at + 6)) == Ok::<Option<Seq<char>>, JomError>(opt_text(x.catch_type))
}

/// `c` is what the `Code` payload `info` decodes to.
pub open spec fn code_decoded(p: Seq<Constant>, info: Seq<u8>, c: Code) -> bool {
    &&& code_layout(info) is Ok
    &&& c.max_stack == be16(info, 0)
    &&& c.max_locals == be16(info, 2)
    &&& stream_bytes(c.instructions@) == info.subrange(8, code_layout(info)->Ok_0.0)
    &&& offsets_placed(c.instructions@)
    &&& switches_counted(c.instructions@)
    &&& c.exception_table@.len() == code_layout(info)->Ok_0.1
    &&& forall|i: int| 0 <= i < c.exception_table@.len()
        ==> exception_decoded(p, info, row_at(code_layout(info)->Ok_0.0, i), #[trigger] c.exception_table@[i])
    &&& c.attributes@.len() == code_layout(info)->Ok_0.2.len()
    &&& forall|i: int| 0 <= i < c.attributes@.len() ==> code_attr_decoded(p,
        pool_utf8(p, code_layout(info)->Ok_0.2[i].0)->Ok_0, code_layout(info)->Ok_0.2[i].1, #[trigger] c.attributes@[i])
}

impl Code {
    /// Decodes a `Code` attribute's payload against the resolved pool.
    pub fn read(info: &[u8], cp: &ConstantPool) -> (r: JomResult<Code>)
        ensures
            r matches Ok(c) ==> code_error(cp@, info@) is None && code_decoded(cp@, info@, c),
            r matches Err(e) ==> code_error(cp@, info@) == Some(e),
    {
        let len = info.len();
        let max_stack = match read_u16(info, 0) {
            Some(v) => v,
            None => return Err(JomError::Malformed),
        };
        let max_locals = match read_u16(info, 2) {
            Some(v) => v,
            None => return Err(JomError::Malformed),
        };
        let code_len = match read_u32(info, 4) {
            Some(v) => v as usize,
            None => return Err(JomError::Malformed),
        };
        if len - 8 < code_len || len - 8 - code_len < 2 {
            return Err(JomError::Malformed);
        }
        let ce = 8 + code_len;
        let n = match read_u16(info, ce) {
            Some(v) => v as usize,
            None => return Err(JomError::Malformed),
        };
        if (len - ce - 2) / 8 < n || len - ce - 2 - 8 * n < 2 {
            proof {
                if (len - ce - 2) / 8 >= n {
                    assert(8 * n <= len - ce - 2) by (nonlinear_arith)
                        requires
                            (len - ce - 2) / 8 >= n,
                            ce + 2 <= len;
                } else {
                    assert(8 * n > len - ce - 2) by (nonlinear_arith)
                        requires
                            (len - ce - 2) / 8 < n,
                            ce + 2 <= len;
                }
            }
            return Err(JomError::Malformed);
        }
        proof {
            assert(8 * n <= len - ce - 2) by (nonlinear_arith)
                requires
                    (len - ce - 2) / 8 >= n,
                    ce + 2 <= len;
        }
        let at = ce + 2 + 8 * n;
        let count = match read_u16(info, at) {
            Some(v) => v,
            None => return Err(JomError::Malformed),
        };
        let (raws, end) = read_attributes(info, at + 2, count)?;
        if end != len {
            return Err(JomError::Malformed);
        }
        let ghost rv = raws@.map_values(|a: RawAttribute| a@);
        assert(code_layout(info@) == Ok::<(int, int, Seq<(u16, Seq<u8>)>), JomError>((ce as int, n as int, rv)));
        let code_bytes = slice_to_vec(info, 8, ce);
        let instructions = decode_instructions(code_bytes.as_slice())?;
        let mut exception_table: Vec<Exception> = Vec::new();
        let mut i: usize = 0;
        while i < n
            invariant
                i <= n,
                at == ce + 2 + 8 * n,
                at + 2 <= len,
                len == info@.len(),
                exception_table@.len() == i,
                code_layout(info@) == Ok::<(int, int, Seq<(u16, Seq<u8>)>), JomError>((ce as int, n as int, rv)),
                stream_error(info@.subrange(8, ce as int)) is None,
                rows_error(cp@, info@, ce as int, 0, n as int) == rows_error(cp@, info@, ce as int, i as int, n as int),
                forall|j: int| 0 <= j < i ==> exception_decoded(cp@, info@, row_at(ce as int, j), #[trigger] exception_table@[j]),
            decreases n - i,
        {
            let row = ce + 2 + 8 * i;
            assert(row + 8 <= at) by (nonlinear_arith)
                requires
                    row == ce + 2 + 8 * i,
                    i < n,
                    at == ce + 2 + 8 * n;
            let start_pc = match read_u16(info, row) {
                Some(v) => v,
                None => return Err(JomError::Malformed),
            };
            let end_pc = match read_u16(info, row + 2) {
                Some(v) => v,
                None => return Err(JomError::Malformed),
            };
            let handler_pc = match read_u16(info, row + 4) {
                Some(v) => v,
                None => return Err(JomError::Malformed),
            };
            let idx = match read_u16(info, row + 6) {
                Some(v) => v,
                None => return Err(JomError::Malformed),
            };
            let catch_type = if idx == 0 {
                None
            } else {
                Some(cp.get_class(idx)?)
            };
            exception_table.push(Exception { start_pc, end_pc, handler_pc, catch_type });
            i += 1;
        }
        let mut attributes: Vec<CodeAttribute> = Vec::new();
        let mut k: usize = 0;
        while k < raws.len()
            invariant
                k <= raws@.len(),
                rv == raws@.map_values(|a: RawAttribute| a@),
                attributes@.len() == k,
                code_layout(info@) == Ok::<(int, int, Seq<(u16, Seq<u8>)>), JomError>((ce as int, n as int, rv)),
                stream_error(info@.subrange(8, ce as int)) is None,
                rows_error(cp@, info@, ce as int, 0, n as int) is None,
                attrs_error(cp@, rv, 0) == attrs_error(cp@, rv, k as int),
                forall|j: int| 0 <= j < k ==> code_attr_decoded(cp@, pool_utf8(cp@, rv[j].0)->Ok_0, rv[j].1, #[trigger] attributes@[j]),
            decreases raws@.len() - k,
        {
            let a = raws[k].into_code_attr(cp)?;
            attributes.push(a);
            k += 1;
        }
        Ok(Code { max_stack, max_locals, instructions, exception_table, attributes })
    }
}

} // verus!
