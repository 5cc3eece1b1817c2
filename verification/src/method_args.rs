//! Turning the texts typed into the method-call dialog into typed argument
//! values, with the messages the standard library's parsers give when a text
//! does not fit its type.

use vstd::prelude::*;

use crate::master_events::MethodArgValue;
use crate::numtext;
use crate::text;

verus! {

/// Why a text is not an integer of a given range, in the standard library's terms.
#[derive(Debug, Clone, Copy, PartialEq, Eq, Structural)]
pub enum IntError {
    Empty,
    InvalidDigit,
    PosOverflow,
    NegOverflow,
}

/// The message the standard library shows for `e`.
pub open spec fn int_error_text(e: IntError) -> Seq<char> {
    match e {
        IntError::Empty => "cannot parse integer from empty string"@,
        IntError::InvalidDigit => "invalid digit found in string"@,
        IntError::PosOverflow => "number too large to fit in target type"@,
        IntError::NegOverflow => "number too small to fit in target type"@,
    }
}

/// Reads the digits `d` after the value `acc` read so far (counting down
/// when `neg`), stopping at the first character that is not a digit or the
/// first digit that takes the value out of `lo..=hi`.
pub open spec fn scan_digits(d: Seq<char>, acc: int, neg: bool, lo: int, hi: int) -> Result<
    int,
    IntError,
>
    decreases d.len(),
{
    if d.len() == 0 {
        Ok(acc)
    } else if !numtext::is_digit(d[0]) {
        Err(IntError::InvalidDigit)
    } else {
        let a = if neg {
            acc * 10 - (d[0] as int - 48)
        } else {
            acc * 10 + (d[0] as int - 48)
        };
        if a > hi {
            Err(IntError::PosOverflow)
        } else if a < lo {
            Err(IntError::NegOverflow)
        } else {
            scan_digits(d.drop_first(), a, neg, lo, hi)
        }
    }
}

/// How `str::parse` reads `s` as an integer of range `lo..=hi`: an optional
/// `+`, or `-` for a signed range, then decimal digits.
pub open spec fn int_parse(s: Seq<char>, lo: int, hi: int) -> Result<int, IntError> {
    if s.len() == 0 {
        Err(IntError::Empty)
    } else if s.len() == 1 && (s[0] == '+' || s[0] == '-') {
        Err(IntError::InvalidDigit)
    } else if s[0] == '+' {
        scan_digits(s.drop_first(), 0, false, lo, hi)
    } else if s[0] == '-' && lo < 0 {
        scan_digits(s.drop_first(), 0, true, lo, hi)
    } else {
        scan_digits(s, 0, false, lo, hi)
    }
}

/// Reads `s` as an integer of range `lo..=hi` the way `str::parse` does.
pub fn parse_int(s: &str, lo: i128, hi: i128) -> (r: Result<i128, IntError>)
    requires
        i64::MIN <= lo <= 0 <= hi <= u64::MAX,
    ensures
        match r {
            Ok(n) => int_parse(s@, lo as int, hi as int) == Ok::<int, IntError>(n as int),
            Err(e) => int_parse(s@, lo as int, hi as int) == Err::<int, IntError>(e),
        },
        r matches Ok(n) ==> lo <= n <= hi,
{
    let v = text::chars_of(s);
    if v.len() == 0 {
        return Err(IntError::Empty);
    }
    if v.len() == 1 && (v[0] == '+' || v[0] == '-') {
        return Err(IntError::InvalidDigit);
    }
    let (start, neg): (usize, bool) = if v[0] == '+' {
        (1, false)
    } else if v[0] == '-' && lo < 0 {
        (1, true)
    } else {
        (0, false)
    };
    let ghost d0 = v@.skip(start as int);
    assert(v@.drop_first() == v@.skip(1));
    assert(v@.skip(0) == v@);
    let mut acc: i128 = 0;
    let mut i: usize = start;
    while i < v.len()
        invariant
            start <= i <= v.len(),
            v@ == s@,
            lo <= acc <= hi,
            i64::MIN <= lo <= 0 <= hi <= u64::MAX,
            scan_digits(d0, 0, neg, lo as int, hi as int) == scan_digits(
                v@.skip(i as int),
                acc as int,
                neg,
                lo as int,
                hi as int,
            ),
            d0 == v@.skip(start as int),
            int_parse(s@, lo as int, hi as int) == scan_digits(d0, 0, neg, lo as int, hi as int),
        decreases v.len() - i,
    {
        let c = v[i];
        assert(v@.skip(i as int)[0] == c);
        assert(v@.skip(i as int).drop_first() == v@.skip(i + 1));
        if !('0' <= c && c <= '9') {
            return Err(IntError::InvalidDigit);
        }
        let digit = (c as u32 - 48) as i128;
        let a: i128 = if neg {
            acc * 10 - digit
        } else {
            acc * 10 + digit
        };
        if a > hi {
            return Err(IntError::PosOverflow);
        }
        if a < lo {
            return Err(IntError::NegOverflow);
        }
        acc = a;
        i = i + 1;
    }
    assert(v@.skip(v.len() as int).len() == 0);
    Ok(acc)
}

/// The message the standard library shows when a text is not a float: one
/// for the empty text, one for anything else.
pub open spec fn float_error_text(s: Seq<char>) -> Seq<char> {
    if s.len() == 0 {
        "cannot parse float from empty string"@
    } else {
        "invalid float literal"@
    }
}

/// A typed method argument.  Floating-point arguments keep their text, which
/// is known to be one that `str::parse::<f32>` / `str::parse::<f64>` accepts.
#[derive(Debug, Clone)]
pub enum ArgValue {
    Boolean(bool),
    SByte(i8),
    Byte(u8),
    Int16(i16),
    UInt16(u16),
    Int32(i32),
    UInt32(u32),
    Int64(i64),
    UInt64(u64),
    Float(String),
    Double(String),
    String(String),
}

/// The range of integer type `ty`.
pub open spec fn int_range(ty: Seq<char>) -> (int, int) {
    if ty == "SByte"@ {
        (-128, 127)
    } else if ty == "Byte"@ {
        (0, 255)
    } else if ty == "Int16"@ {
        (-32768, 32767)
    } else if ty == "UInt16"@ {
        (0, 65535)
    } else if ty == "Int32"@ {
        (-2147483648, 2147483647)
    } else if ty == "UInt32"@ {
        (0, 4294967295)
    } else if ty == "Int64"@ {
        (-9223372036854775808, 9223372036854775807)
    } else {
        (0, 18446744073709551615)
    }
}

/// Whether `ty` names an integer type.
pub open spec fn is_int_type(ty: Seq<char>) -> bool {
    ty == "SByte"@ || ty == "Byte"@ || ty == "Int16"@ || ty == "UInt16"@ || ty == "Int32"@ || ty
        == "UInt32"@ || ty == "Int64"@ || ty == "UInt64"@
}

/// The integer held by an integer argument of type `ty`.
pub open spec fn int_value_of(v: ArgValue) -> int {
    match v {
        ArgValue::SByte(n) => n as int,
        ArgValue::Byte(n) => n as int,
        ArgValue::Int16(n) => n as int,
        ArgValue::UInt16(n) => n as int,
        ArgValue::Int32(n) => n as int,
        ArgValue::UInt32(n) => n as int,
        ArgValue::Int64(n) => n as int,
        ArgValue::UInt64(n) => n as int,
        _ => 0,
    }
}

/// Whether `v` is an argument of integer type `ty`.
pub open spec fn has_int_type(v: ArgValue, ty: Seq<char>) -> bool {
    match v {
        ArgValue::SByte(_) => ty == "SByte"@,
        ArgValue::Byte(_) => ty == "Byte"@,
        ArgValue::Int16(_) => ty == "Int16"@,
        ArgValue::UInt16(_) => ty == "UInt16"@,
        ArgValue::Int32(_) => ty == "Int32"@,
        ArgValue::UInt32(_) => ty == "UInt32"@,
        ArgValue::Int64(_) => ty == "Int64"@,
        ArgValue::UInt64(_) => ty == "UInt64"@,
        _ => false,
    }
}

/// Whether `r` is what the text `v` gives as an argument of type `ty`:
/// Booleans are exactly `true` or `false`; integers are read as `str::parse`
/// reads them for the type's range; floats must follow the grammar of
/// `str::parse::<f64>` and keep their text; strings are taken as they are;
/// other types are refused.  Failures carry the parser's message.
pub open spec fn converts_to(ty: Seq<char>, v: Seq<char>, r: Result<ArgValue, String>) -> bool {
    if ty == "Boolean"@ {
        if v == "true"@ {
            r matches Ok(ArgValue::Boolean(b)) && b
        } else if v == "false"@ {
            r matches Ok(ArgValue::Boolean(b)) && !b
        } else {
            r matches Err(e) && e@ == "provided string was not `true` or `false`"@
        }
    } else if is_int_type(ty) {
        match int_parse(v, int_range(ty).0, int_range(ty).1) {
            Ok(n) => r matches Ok(a) && has_int_type(a, ty) && int_value_of(a) == n,
            Err(k) => r matches Err(e) && e@ == int_error_text(k),
        }
    } else if ty == "Float"@ || ty == "Double"@ {
        if numtext::is_float_text(v) {
            if ty == "Float"@ {
                r matches Ok(ArgValue::Float(t)) && t@ == v
            } else {
                r matches Ok(ArgValue::Double(t)) && t@ == v
            }
        } else {
            r matches Err(e) && e@ == float_error_text(v)
        }
    } else if ty == "String"@ {
        r matches Ok(ArgValue::String(t)) && t@ == v
    } else {
        r matches Err(e) && e@ == "unsupported method arg type: "@ + ty
    }
}

fn int_error_message(e: IntError) -> (r: String)
    ensures
        r@ == int_error_text(e),
{
    match e {
        IntError::Empty => String::from_str("cannot parse integer from empty string"),
        IntError::InvalidDigit => String::from_str("invalid digit found in string"),
        IntError::PosOverflow => String::from_str("number too large to fit in target type"),
        IntError::NegOverflow => String::from_str("number too small to fit in target type"),
    }
}

/// The argument value the text `value` gives for data type `data_type`.
pub fn string_to_variant(data_type: &str, value: &str) -> (r: Result<ArgValue, String>)
    ensures
        converts_to(data_type@, value@, r),
{
    proof {
        reveal_strlit("SByte");
        reveal_strlit("Byte");
        reveal_strlit("Int16");
        reveal_strlit("UInt16");
        reveal_strlit("Int32");
        reveal_strlit("UInt32");
        reveal_strlit("Int64");
        reveal_strlit("UInt64");
        reveal_strlit("Boolean");
        reveal_strlit("Float");
        reveal_strlit("Double");
        reveal_strlit("String");
        assert("Boolean"@.len() == 7);
        assert("SByte"@.len() == 5 && "SByte"@[0] == 'S');
        assert("Byte"@.len() == 4);
        assert("Int16"@.len() == 5 && "Int16"@[0] == 'I' && "Int16"@[3] == '1');
        assert("Int32"@.len() == 5 && "Int32"@[0] == 'I' && "Int32"@[3] == '3');
        assert("Int64"@.len() == 5 && "Int64"@[0] == 'I' && "Int64"@[3] == '6');
        assert("Float"@.len() == 5 && "Float"@[0] == 'F');
        assert("UInt16"@.len() == 6 && "UInt16"@[0] == 'U' && "UInt16"@[4] == '1');
        assert("UInt32"@.len() == 6 && "UInt32"@[0] == 'U' && "UInt32"@[4] == '3');
        assert("UInt64"@.len() == 6 && "UInt64"@[0] == 'U' && "UInt64"@[4] == '6');
        assert("Double"@.len() == 6 && "Double"@[0] == 'D');
        assert("String"@.len() == 6 && "String"@[0] == 'S');
    }
    let ty = data_type;
    if text::str_eq(ty, "Boolean") {
        if text::str_eq(value, "true") {
            Ok(ArgValue::Boolean(true))
        } else if text::str_eq(value, "false") {
            Ok(ArgValue::Boolean(false))
        } else {
            Err(String::from_str("provided string was not `true` or `false`"))
        }
    } else if text::str_eq(ty, "SByte") {
        match parse_int(value, -128, 127) {
            Ok(n) => Ok(ArgValue::SByte(n as i8)),
            Err(e) => Err(int_error_message(e)),
        }
    } else if text::str_eq(ty, "Byte") {
        match parse_int(value, 0, 255) {
            Ok(n) => Ok(ArgValue::Byte(n as u8)),
            Err(e) => Err(int_error_message(e)),
        }
    } else if text::str_eq(ty, "Int16") {
        match parse_int(value, -32768, 32767) {
            Ok(n) => Ok(ArgValue::Int16(n as i16)),
            Err(e) => Err(int_error_message(e)),
        }
    } else if text::str_eq(ty, "UInt16") {
        match parse_int(value, 0, 65535) {
            Ok(n) => Ok(ArgValue::UInt16(n as u16)),
            Err(e) => Err(int_error_message(e)),
        }
    } else if text::str_eq(ty, "Int32") {
        match parse_int(value, -2147483648, 2147483647) {
            Ok(n) => Ok(ArgValue::Int32(n as i32)),
            Err(e) => Err(int_error_message(e)),
        }
    } else if text::str_eq(ty, "UInt32") {
        match parse_int(value, 0, 4294967295) {
            Ok(n) => Ok(ArgValue::UInt32(n as u32)),
            Err(e) => Err(int_error_message(e)),
        }
    } else if text::str_eq(ty, "Int64") {
        match parse_int(value, -9223372036854775808, 9223372036854775807) {
            Ok(n) => Ok(ArgValue::Int64(n as i64)),
            Err(e) => Err(int_error_message(e)),
        }
    } else if text::str_eq(ty, "UInt64") {
        match parse_int(value, 0, 18446744073709551615) {
            Ok(n) => Ok(ArgValue::UInt64(n as u64)),
            Err(e) => Err(int_error_message(e)),
        }
    } else if text::str_eq(ty, "Float") || text::str_eq(ty, "Double") {
        let v = text::chars_of(value);
        if numtext::float_text(&v) {
            if text::str_eq(ty, "Float") {
                Ok(ArgValue::Float(String::from_str(value)))
            } else {
                Ok(ArgValue::Double(String::from_str(value)))
            }
        } else if v.len() == 0 {
            Err(String::from_str("cannot parse float from empty string"))
        } else {
            Err(String::from_str("invalid float literal"))
        }
    } else if text::str_eq(ty, "String") {
        Ok(ArgValue::String(String::from_str(value)))
    } else {
        let mut msg: Vec<char> = Vec::new();
        text::push_str_chars(&mut msg, "unsupported method arg type: ");
        text::push_str_chars(&mut msg, ty);
        Err(text::string_from_chars(&msg))
    }
}

/// The argument values of a call, in order, or the message of the first
/// input whose text does not fit its type.
pub fn convert_inputs(inputs: &Vec<MethodArgValue>) -> (r: Result<Vec<ArgValue>, String>)
    ensures
        match r {
            Ok(vals) => vals@.len() == inputs@.len() && forall|i: int|
                0 <= i < inputs@.len() ==> converts_to(
                    #[trigger] inputs@[i].data_type@,
                    inputs@[i].value@,
                    Ok::<ArgValue, String>(vals@[i]),
                ),
            Err(e) => exists|k: int|
                0 <= k < inputs@.len() && converts_to(
                    #[trigger] inputs@[k].data_type@,
                    inputs@[k].value@,
                    Err::<ArgValue, String>(e),
                ) && forall|i: int|
                    0 <= i < k ==> !converts_fails(inputs@[i].data_type@, inputs@[i].value@),
        },
{
    let mut out: Vec<ArgValue> = Vec::new();
    let mut i: usize = 0;
    while i < inputs.len()
        invariant
            i <= inputs.len(),
            out@.len() == i,
            forall|j: int|
                0 <= j < i ==> converts_to(
                    #[trigger] inputs@[j].data_type@,
                    inputs@[j].value@,
                    Ok::<ArgValue, String>(out@[j]),
                ),
        decreases inputs.len() - i,
    {
        let a = &inputs[i];
        match string_to_variant(a.data_type.as_str(), a.value.as_str()) {
            Ok(v) => {
                out.push(v);
            },
            Err(e) => {
                proof {
                    assert forall|j: int| 0 <= j < i implies !converts_fails(
                        inputs@[j].data_type@,
                        inputs@[j].value@,
                    ) by {
                        lemma_converts_ok_not_fails(
                            inputs@[j].data_type@,
                            inputs@[j].value@,
                            out@[j],
                        );
                    }
                }
                return Err(e);
            },
        }
        i = i + 1;
    }
    Ok(out)
}

/// Whether the text `v` is refused as an argument of type `ty`.
pub open spec fn converts_fails(ty: Seq<char>, v: Seq<char>) -> bool {
    if ty == "Boolean"@ {
        v != "true"@ && v != "false"@
    } else if is_int_type(ty) {
        int_parse(v, int_range(ty).0, int_range(ty).1) is Err
    } else if ty == "Float"@ || ty == "Double"@ {
        !numtext::is_float_text(v)
    } else {
        ty != "String"@
    }
}

proof fn lemma_converts_ok_not_fails(ty: Seq<char>, v: Seq<char>, a: ArgValue)
    requires
        converts_to(ty, v, Ok::<ArgValue, String>(a)),
    ensures
        !converts_fails(ty, v),
{
}

} // verus!
