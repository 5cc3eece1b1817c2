//! Rules used by the master's panels: timestamp shortening, quality colours,
//! the write-value type check, access-level text, default argument text and
//! the central tab strip.

use vstd::prelude::*;

use crate::master_events::MethodArgInfo;
use crate::method_args;
use crate::numtext;
use crate::text;
use crate::theme::{
    self, status_bad, status_idle, status_ok, status_warn, text_muted, Rgb, ThemeMode, ThemeSwitch,
};

verus! {

/// The colour used for an OPC UA quality (status) text under mode `m`.
pub open spec fn quality_color_of(m: ThemeMode, q: Seq<char>) -> Rgb {
    if q.len() == 0 {
        theme::status_idle_of(m)
    } else if text::starts_with(q, "Good"@) {
        theme::status_ok_of(m)
    } else if text::starts_with(q, "Bad"@) || text::contains(q, "Error"@) {
        theme::status_bad_of(m)
    } else if text::starts_with(q, "Uncertain"@) {
        theme::status_warn_of(m)
    } else {
        theme::text_muted_of(m)
    }
}

/// Colour for a quality text: idle when empty, ok for `Good…`, bad for
/// `Bad…` or anything mentioning `Error`, warning for `Uncertain…`, muted
/// otherwise.
pub fn quality_color(switch: &ThemeSwitch, q: &str) -> (r: Rgb)
    ensures
        r == quality_color_of(switch.mode(), q@),
{
    let v = crate::text::chars_of(q);
    if v.len() == 0 {
        status_idle(switch)
    } else if crate::text::starts_with_exec(&v, &crate::text::chars_of("Good")) {
        status_ok(switch)
    } else if crate::text::starts_with_exec(&v, &crate::text::chars_of("Bad"))
        || crate::text::contains_exec(&v, &crate::text::chars_of("Error")) {
        status_bad(switch)
    } else if crate::text::starts_with_exec(&v, &crate::text::chars_of("Uncertain")) {
        status_warn(switch)
    } else {
        text_muted(switch)
    }
}

/// Whether `format_hms` can take characters 11..19 of `raw`: for a text of
/// at least 19 bytes, bytes 11 and 19 must start characters.  (Its byte
/// length fits in `usize`, as that of every string in memory does.)
pub open spec fn hms_sliceable(raw: &str) -> bool {
    &&& vstd::utf8::encode_utf8(raw@).len() <= usize::MAX
    &&& vstd::utf8::encode_utf8(raw@).len() >= 19 ==> vstd::utf8::is_char_boundary(vstd::utf8::encode_utf8(raw@), 11) && vstd::utf8::is_char_boundary(
        vstd::utf8::encode_utf8(raw@),
        19,
    )
}

/// Shortens an ISO-8601 timestamp to its `HH:MM:SS` part (bytes 11..19);
/// shorter texts are returned as they are and a missing or empty one as `—`.
pub fn format_hms(ts: Option<&str>) -> (r: String)
    requires
        ts matches Some(raw) ==> hms_sliceable(raw),
    ensures
        ts is None ==> r@ == "—"@,
        ts matches Some(raw) ==> (raw@.len() == 0 ==> r@ == "—"@),
        ts matches Some(raw) ==> (raw@.len() > 0 && vstd::utf8::encode_utf8(raw@).len() < 19 ==> r@
            == raw@),
        ts matches Some(raw) ==> (vstd::utf8::encode_utf8(raw@).len() >= 19
            ==> vstd::utf8::encode_utf8(r@) == vstd::utf8::encode_utf8(raw@).subrange(11, 19)),
{
    let raw = match ts {
        None => {
            return String::from_str("—");
        },
        Some(raw) => raw,
    };
    if raw.is_empty() {
        return String::from_str("—");
    }
    if raw.len() >= 19 {
        let ghost bytes = vstd::utf8::encode_utf8(raw@);
        proof {
            vstd::utf8::encode_utf8_valid_utf8(raw@);
        }
        let (_, rest) = raw.split_at(11);
        proof {
            vstd::utf8::valid_utf8_split(bytes, 11);
            assert(vstd::utf8::encode_utf8(rest@) == bytes.subrange(11, bytes.len() as int));
            vstd::utf8::encode_utf8_valid_utf8(rest@);
            if bytes.len() > 19 {
                vstd::utf8::is_char_boundary_iff_not_is_continuation_byte(bytes, 19);
                vstd::utf8::is_char_boundary_iff_not_is_continuation_byte(vstd::utf8::encode_utf8(rest@), 8);
                assert(vstd::utf8::encode_utf8(rest@)[8] == bytes[19]);
            } else {
                vstd::utf8::is_char_boundary_start_end_of_seq(vstd::utf8::encode_utf8(rest@));
            }
        }
        let (mid, _) = rest.split_at(8);
        assert(vstd::utf8::encode_utf8(mid@) == bytes.subrange(11, 19));
        return String::from_str(mid);
    }
    String::from_str(raw)
}

/// Message when a Boolean write value is not `true`/`false`/`0`/`1`.
pub open spec fn msg_need_bool() -> Seq<char> {
    "需要 true/false 或 0/1"@
}

/// Message when a floating-point write value does not parse.
pub open spec fn msg_need_float() -> Seq<char> {
    "需要浮点数"@
}

/// Message when a signed-integer write value does not parse.
pub open spec fn msg_need_int() -> Seq<char> {
    "需要整数"@
}

/// Message when an unsigned-integer write value does not parse.
pub open spec fn msg_need_uint() -> Seq<char> {
    "需要非负整数"@
}

/// Whether `ty` names a signed integer type.
pub open spec fn is_signed_int_type(ty: Seq<char>) -> bool {
    ty == "SByte"@ || ty == "Int16"@ || ty == "Int32"@ || ty == "Int64"@
}

/// Whether `ty` names an unsigned integer type.
pub open spec fn is_unsigned_int_type(ty: Seq<char>) -> bool {
    ty == "Byte"@ || ty == "UInt16"@ || ty == "UInt32"@ || ty == "UInt64"@
}

/// Whether `s` reads as an integer of type `ty`, in that type's own range.
pub open spec fn fits_int_type(ty: Seq<char>, s: Seq<char>) -> bool {
    method_args::int_parse(s, method_args::int_range(ty).0, method_args::int_range(ty).1) is Ok
}

/// The complaint about write value `raw` for data type `ty`, if any.
pub open spec fn write_value_problem(ty: Seq<char>, raw: Seq<char>) -> Option<Seq<char>> {
    let s = text::trim(raw);
    if s.len() == 0 {
        None
    } else if ty == "Boolean"@ {
        let l = text::ascii_lower(s);
        if l == "true"@ || l == "false"@ || l == "0"@ || l == "1"@ {
            None
        } else {
            Some(msg_need_bool())
        }
    } else if ty == "Float"@ || ty == "Double"@ {
        if numtext::is_float_text(s) {
            None
        } else {
            Some(msg_need_float())
        }
    } else if is_signed_int_type(ty) {
        if fits_int_type(ty, s) {
            None
        } else {
            Some(msg_need_int())
        }
    } else if is_unsigned_int_type(ty) {
        if fits_int_type(ty, s) {
            None
        } else {
            Some(msg_need_uint())
        }
    } else {
        None
    }
}

/// A Boolean write value is accepted exactly when, trimmed and with ASCII
/// letters lower-cased, it reads `true`, `false`, `0` or `1`; any other
/// non-blank text draws the Boolean complaint.
pub proof fn lemma_boolean_write_values(v: Seq<char>)
    ensures
        ({
            let l = text::ascii_lower(text::trim(v));
            &&& (l == "true"@ || l == "false"@ || l == "0"@ || l == "1"@) ==> write_value_problem(
                "Boolean"@,
                v,
            ) is None
            &&& !(l == "true"@ || l == "false"@ || l == "0"@ || l == "1"@) && text::trim(v).len() > 0
                ==> write_value_problem("Boolean"@, v) == Some(msg_need_bool())
        }),
{
    reveal_strlit("true");
    reveal_strlit("false");
    reveal_strlit("0");
    reveal_strlit("1");
    let l = text::ascii_lower(text::trim(v));
    assert(l.len() == text::trim(v).len());
}

/// Client-side check of a value to write: `None` when the trimmed text is
/// empty or can be coerced to the declared type (Booleans as `true`/`false`/
/// `0`/`1` in any ASCII case, floats as `f64` text, integer types as decimal
/// text within the type's own range, other types unchecked), otherwise a
/// short complaint.
pub fn parse_check(data_type: &str, raw: &str) -> (r: Option<&'static str>)
    ensures
        r is None <==> write_value_problem(data_type@, raw@) is None,
        r matches Some(m) ==> Some(m@) == write_value_problem(data_type@, raw@),
{
    let s_str = crate::text::trim_string(raw);
    let s = crate::text::chars_of(s_str.as_str());
    if s.len() == 0 {
        return None;
    }
    let ty = data_type;
    if crate::text::str_eq(ty, "Boolean") {
        let l = crate::text::ascii_lower_exec(&s);
        let ls = crate::text::string_from_chars(&l);
        if crate::text::str_eq(ls.as_str(), "true") || crate::text::str_eq(ls.as_str(), "false")
            || crate::text::str_eq(ls.as_str(), "0") || crate::text::str_eq(ls.as_str(), "1") {
            None
        } else {
            Some("需要 true/false 或 0/1")
        }
    } else if crate::text::str_eq(ty, "Float") || crate::text::str_eq(ty, "Double") {
        if crate::numtext::float_text(&s) {
            None
        } else {
            Some("需要浮点数")
        }
    } else if crate::text::str_eq(ty, "SByte") || crate::text::str_eq(ty, "Int16")
        || crate::text::str_eq(ty, "Int32") || crate::text::str_eq(ty, "Int64") {
        let (lo, hi) = int_bounds(ty);
        if crate::method_args::parse_int(s_str.as_str(), lo, hi).is_ok() {
            None
        } else {
            Some("需要整数")
        }
    } else if crate::text::str_eq(ty, "Byte") || crate::text::str_eq(ty, "UInt16")
        || crate::text::str_eq(ty, "UInt32") || crate::text::str_eq(ty, "UInt64") {
        let (lo, hi) = int_bounds(ty);
        if crate::method_args::parse_int(s_str.as_str(), lo, hi).is_ok() {
            None
        } else {
            Some("需要非负整数")
        }
    } else {
        None
    }
}

/// The range of the integer type `ty` (that of `UInt64` for any name that
/// is not one of the other integer types).
fn int_bounds(ty: &str) -> (r: (i128, i128))
    ensures
        r.0 == method_args::int_range(ty@).0,
        r.1 == method_args::int_range(ty@).1,
        i64::MIN <= r.0 <= 0 <= r.1 <= u64::MAX,
{
    if crate::text::str_eq(ty, "SByte") {
        (-128, 127)
    } else if crate::text::str_eq(ty, "Byte") {
        (0, 255)
    } else if crate::text::str_eq(ty, "Int16") {
        (-32768, 32767)
    } else if crate::text::str_eq(ty, "UInt16") {
        (0, 65535)
    } else if crate::text::str_eq(ty, "Int32") {
        (-2147483648, 2147483647)
    } else if crate::text::str_eq(ty, "UInt32") {
        (0, 4294967295)
    } else if crate::text::str_eq(ty, "Int64") {
        (-9223372036854775808, 9223372036854775807)
    } else {
        (0, 18446744073709551615)
    }
}

/// The lower-case hexadecimal digit for `n < 16`.
pub open spec fn hex_digit(n: int) -> char {
    if n < 10 {
        (48 + n) as char
    } else {
        (87 + n) as char
    }
}

/// Display text of a user access level: `R` and/or `W` joined by ` · `, or
/// `0x` and two hex digits when neither bit is set.
pub open spec fn access_text(level: u8) -> Seq<char> {
    let r = level & 0x01 != 0;
    let w = level & 0x02 != 0;
    if r && w {
        "R · W"@
    } else if r {
        "R"@
    } else if w {
        "W"@
    } else {
        seq!['0', 'x', hex_digit(level as int / 16), hex_digit(level as int % 16)]
    }
}

fn hex_char(n: u8) -> (c: char)
    requires
        n < 16,
    ensures
        c == hex_digit(n as int),
{
    if n < 10 {
        ((48 + n) as u8) as char
    } else {
        ((87 + n) as u8) as char
    }
}

/// Readable form of a user access level.
pub fn access_str(level: u8) -> (r: String)
    ensures
        r@ == access_text(level),
{
    let rd = level & 0x01 != 0;
    let wr = level & 0x02 != 0;
    if rd && wr {
        String::from_str("R · W")
    } else if rd {
        String::from_str("R")
    } else if wr {
        String::from_str("W")
    } else {
        let mut v: Vec<char> = Vec::new();
        v.push('0');
        v.push('x');
        v.push(hex_char(level / 16));
        v.push(hex_char(level % 16));
        string_from_four(&v)
    }
}

fn string_from_four(v: &Vec<char>) -> (r: String)
    ensures
        r@ == v@,
{
    crate::text::string_from_chars(v)
}

/// Initial text of an input argument of type `ty`.
pub open spec fn default_arg_text(ty: Seq<char>) -> Seq<char> {
    if ty == "Boolean"@ {
        "false"@
    } else if ty == "String"@ {
        ""@
    } else if ty == "Float"@ || ty == "Double"@ {
        "0.0"@
    } else {
        "0"@
    }
}

/// Initial text of a method input in the call dialog.
pub fn default_for_type(arg: &MethodArgInfo) -> (r: String)
    ensures
        r@ == default_arg_text(arg.data_type@),
{
    let t = arg.data_type.as_str();
    if crate::text::str_eq(t, "Boolean") {
        String::from_str("false")
    } else if crate::text::str_eq(t, "String") {
        String::from_str("")
    } else if crate::text::str_eq(t, "Float") || crate::text::str_eq(t, "Double") {
        String::from_str("0.0")
    } else {
        String::from_str("0")
    }
}

/// Initial text of a method input when the argument list arrives.
pub fn default_input_for(arg: &MethodArgInfo) -> (r: String)
    ensures
        r@ == default_arg_text(arg.data_type@),
{
    let t = arg.data_type.as_str();
    if crate::text::str_eq(t, "Boolean") {
        String::from_str("false")
    } else if crate::text::str_eq(t, "String") {
        String::from_str("")
    } else if crate::text::str_eq(t, "Float") || crate::text::str_eq(t, "Double") {
        String::from_str("0.0")
    } else {
        String::from_str("0")
    }
}

/// The data types a method argument can be given as text.
pub open spec fn is_method_arg_type(ty: Seq<char>) -> bool {
    ty == "Boolean"@ || method_args::is_int_type(ty) || ty == "Float"@ || ty == "Double"@ || ty
        == "String"@
}

/// The text a method input starts with is accepted for its type: converting
/// it to an argument value succeeds, and the write check finds nothing to
/// complain of.
pub proof fn lemma_default_text_accepted(ty: Seq<char>)
    requires
        is_method_arg_type(ty),
    ensures
        forall|r: Result<method_args::ArgValue, String>|
            method_args::converts_to(ty, default_arg_text(ty), r) ==> r is Ok,
        write_value_problem(ty, default_arg_text(ty)) is None,
{
    reveal_strlit("Boolean");
    reveal_strlit("String");
    reveal_strlit("Float");
    reveal_strlit("Double");
    reveal_strlit("SByte");
    reveal_strlit("Byte");
    reveal_strlit("Int16");
    reveal_strlit("UInt16");
    reveal_strlit("Int32");
    reveal_strlit("UInt32");
    reveal_strlit("Int64");
    reveal_strlit("UInt64");
    reveal_strlit("true");
    reveal_strlit("false");
    reveal_strlit("0");
    reveal_strlit("1");
    reveal_strlit("0.0");
    reveal_strlit("");
    reveal_strlit("inf");
    reveal_strlit("infinity");
    reveal_strlit("nan");
    assert("Boolean"@.len() == 7);
    assert("SByte"@.len() == 5 && "SByte"@[0] == 'S');
    assert("Byte"@.len() == 4);
    assert("Int16"@.len() == 5 && "Int16"@[0] == 'I');
    assert("Int32"@.len() == 5 && "Int32"@[0] == 'I');
    assert("Int64"@.len() == 5 && "Int64"@[0] == 'I');
    assert("UInt16"@.len() == 6 && "UInt16"@[0] == 'U');
    assert("UInt32"@.len() == 6 && "UInt32"@[0] == 'U');
    assert("UInt64"@.len() == 6 && "UInt64"@[0] == 'U');
    assert("Float"@.len() == 5 && "Float"@[0] == 'F');
    assert("Double"@.len() == 6 && "Double"@[0] == 'D');
    assert("String"@.len() == 6 && "String"@[0] == 'S');
    let d = default_arg_text(ty);
    if ty == "Boolean"@ {
        assert(d == "false"@);
        assert(d != "true"@);
        assert(text::trim_start(d) == d);
        assert(text::trim_end(d) == d);
        assert(text::ascii_lower(d) =~= d);
        assert forall|r: Result<method_args::ArgValue, String>|
            method_args::converts_to(ty, d, r) implies r is Ok by {}
    } else if ty == "String"@ {
        assert(d.len() == 0);
        assert(text::trim(d).len() == 0);
        assert forall|r: Result<method_args::ArgValue, String>|
            method_args::converts_to(ty, d, r) implies r is Ok by {}
    } else if ty == "Float"@ || ty == "Double"@ {
        assert(d == "0.0"@);
        assert(text::trim_start(d) == d);
        assert(text::trim_end(d) == d);
        assert(text::ascii_lower(d) =~= d);
        assert(numtext::unsigned_part(d) == d);
        assert(d.take(1) =~= seq!['0']);
        assert(d.skip(2) =~= seq!['0']);
        assert(numtext::is_mantissa(d));
        assert(numtext::is_decimal(d));
        assert(numtext::is_float_text(d));
        assert forall|r: Result<method_args::ArgValue, String>|
            method_args::converts_to(ty, d, r) implies r is Ok by {}
    } else {
        assert(method_args::is_int_type(ty));
        assert(ty != "Boolean"@ && ty != "String"@ && ty != "Float"@ && ty != "Double"@);
        assert(d == "0"@);
        assert(text::trim_start(d) == d);
        assert(text::trim_end(d) == d);
        let lo = method_args::int_range(ty).0;
        let hi = method_args::int_range(ty).1;
        assert(lo <= 0 <= hi);
        assert(d.drop_first().len() == 0);
        reveal_with_fuel(method_args::scan_digits, 2);
        assert(method_args::scan_digits(d, 0, false, lo, hi) == Ok::<int, method_args::IntError>(0));
        assert(method_args::int_parse(d, lo, hi) is Ok);
        assert(is_signed_int_type(ty) || is_unsigned_int_type(ty));
        assert forall|r: Result<method_args::ArgValue, String>|
            method_args::converts_to(ty, d, r) implies r is Ok by {}
    }
}

/// What the history tab asks of the application after a frame.
pub struct TabActions {
    pub close: bool,
    pub refresh: bool,
}

} // verus!
