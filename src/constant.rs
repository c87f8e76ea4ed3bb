//! Decoding of scalar constants into typed literals.
use vstd::prelude::*;
use crate::ast::{IntTy, LitIntType, LitKind, Ty, UintTy};
use crate::host::{FatalReason, ScalarInt};

verus! {

/// Relies on `char::from_u32`: the character with scalar value `u`, unless
/// `u` is a surrogate or above 0x10FFFF.
#[verifier::external_body]
fn char_from_u32(u: u32) -> (r: Option<char>)
    ensures
        r is Some <==> (u <= 0x10FFFF && !(0xD800 <= u <= 0xDFFF)),
        r matches Some(c) ==> c as u32 == u,
{
    char::from_u32(u)
}

/// The width in bytes of a signed integer type.
pub open spec fn int_bytes(t: IntTy, pointer_bytes: u8) -> int {
    match t {
        IntTy::Isize => pointer_bytes as int,
        IntTy::I8 => 1,
        IntTy::I16 => 2,
        IntTy::I32 => 4,
        IntTy::I64 => 8,
        IntTy::I128 => 16,
    }
}

/// The width in bytes of an unsigned integer type.
pub open spec fn uint_bytes(t: UintTy, pointer_bytes: u8) -> int {
    match t {
        UintTy::Usize => pointer_bytes as int,
        UintTy::U8 => 1,
        UintTy::U16 => 2,
        UintTy::U32 => 4,
        UintTy::U64 => 8,
        UintTy::U128 => 16,
    }
}

pub open spec fn is_scalar_value(u: int) -> bool {
    0 <= u <= 0x10FFFF && !(0xD800 <= u <= 0xDFFF)
}

/// The literal a scalar of type `ty` stands for: the type picks the width
/// and the signedness; a scalar of another width is refused.
pub open spec fn decode_scalar(pointer_bytes: u8, lit: ScalarInt, ty: Ty) -> Result<LitKind, FatalReason> {
    match ty {
        Ty::Bool => if lit.size == 1 && lit.data <= 1 {
            Ok(LitKind::Bool(lit.data == 1))
        } else {
            Err(FatalReason::BadScalar)
        },
        Ty::Char => if lit.size == 4 && is_scalar_value(lit.data as int) {
            Ok(LitKind::Char((lit.data as u32) as char))
        } else {
            Err(FatalReason::BadScalar)
        },
        Ty::Int(k) => if lit.size as int == int_bytes(k, pointer_bytes) {
            Ok(LitKind::Int(lit.data, LitIntType::Signed(k)))
        } else {
            Err(FatalReason::BadScalar)
        },
        Ty::Uint(k) => if lit.size as int == uint_bytes(k, pointer_bytes) {
            Ok(LitKind::Int(lit.data, LitIntType::Unsigned(k)))
        } else {
            Err(FatalReason::BadScalar)
        },
        _ => Err(FatalReason::NotALiteral),
    }
}

fn int_width(t: IntTy, pointer_bytes: u8) -> (r: u8)
    ensures
        r as int == int_bytes(t, pointer_bytes),
{
    match t {
        IntTy::Isize => pointer_bytes,
        IntTy::I8 => 1,
        IntTy::I16 => 2,
        IntTy::I32 => 4,
        IntTy::I64 => 8,
        IntTy::I128 => 16,
    }
}

fn uint_width(t: UintTy, pointer_bytes: u8) -> (r: u8)
    ensures
        r as int == uint_bytes(t, pointer_bytes),
{
    match t {
        UintTy::Usize => pointer_bytes,
        UintTy::U8 => 1,
        UintTy::U16 => 2,
        UintTy::U32 => 4,
        UintTy::U64 => 8,
        UintTy::U128 => 16,
    }
}

/// Decodes scalar `lit` of type `ty` into a literal.
pub fn scalar_int_to_literal(pointer_bytes: u8, lit: ScalarInt, ty: &Ty) -> (r: Result<LitKind, FatalReason>)
    ensures
        r == decode_scalar(pointer_bytes, lit, *ty),
{
    match ty {
        Ty::Bool => {
            if lit.size == 1 && lit.data <= 1 {
                Ok(LitKind::Bool(lit.data == 1))
            } else {
                Err(FatalReason::BadScalar)
            }
        },
        Ty::Char => {
            if lit.size != 4 || lit.data > 0x10FFFF {
                return Err(FatalReason::BadScalar);
            }
            match char_from_u32(lit.data as u32) {
                Some(c) => {
                    proof {
                        vstd::utf8::char_u32_cast(c, lit.data as u32);
                    }
                    Ok(LitKind::Char(c))
                },
                None => Err(FatalReason::BadScalar),
            }
        },
        Ty::Int(k) => {
            if lit.size == int_width(*k, pointer_bytes) {
                Ok(LitKind::Int(lit.data, LitIntType::Signed(*k)))
            } else {
                Err(FatalReason::BadScalar)
            }
        },
        Ty::Uint(k) => {
            if lit.size == uint_width(*k, pointer_bytes) {
                Ok(LitKind::Int(lit.data, LitIntType::Unsigned(*k)))
            } else {
                Err(FatalReason::BadScalar)
            }
        },
        _ => Err(FatalReason::NotALiteral),
    }
}

} // verus!
