use opcuasim::master_events::MethodArgValue;
use opcuasim::method_args::{convert_inputs, parse_int, string_to_variant, ArgValue, IntError};

const SAMPLES: &[&str] = &[
    "", "+", "-", "0", "-0", "+7", "-7", "127", "128", "-128", "-129", "255", "256", "65535", "65536", "-32768",
    "-32769", "2147483647", "2147483648", "-2147483649", "4294967295", "4294967296", "9223372036854775807",
    "9223372036854775808", "-9223372036854775809", "18446744073709551615", "18446744073709551616", "12a", "a12",
    "300x", "1 ", " 1", "--1", "+-1", "٣", "99999999999999999999999x",
];

fn int_outcome(r: Result<ArgValue, String>) -> Result<i128, String> {
    match r {
        Ok(ArgValue::SByte(n)) => Ok(n as i128),
        Ok(ArgValue::Byte(n)) => Ok(n as i128),
        Ok(ArgValue::Int16(n)) => Ok(n as i128),
        Ok(ArgValue::UInt16(n)) => Ok(n as i128),
        Ok(ArgValue::Int32(n)) => Ok(n as i128),
        Ok(ArgValue::UInt32(n)) => Ok(n as i128),
        Ok(ArgValue::Int64(n)) => Ok(n as i128),
        Ok(ArgValue::UInt64(n)) => Ok(n as i128),
        Ok(other) => panic!("unexpected {other:?}"),
        Err(e) => Err(e),
    }
}

fn std_outcome<T: std::str::FromStr + Into<i128>>(s: &str) -> Result<i128, String>
where
    T::Err: std::fmt::Display,
{
    s.parse::<T>().map(|v| v.into()).map_err(|e| e.to_string())
}

#[test]
fn integer_arguments_match_std_parse() {
    for s in SAMPLES {
        assert_eq!(int_outcome(string_to_variant("SByte", s)), std_outcome::<i8>(s), "SByte {s:?}");
        assert_eq!(int_outcome(string_to_variant("Byte", s)), std_outcome::<u8>(s), "Byte {s:?}");
        assert_eq!(int_outcome(string_to_variant("Int16", s)), std_outcome::<i16>(s), "Int16 {s:?}");
        assert_eq!(int_outcome(string_to_variant("UInt16", s)), std_outcome::<u16>(s), "UInt16 {s:?}");
        assert_eq!(int_outcome(string_to_variant("Int32", s)), std_outcome::<i32>(s), "Int32 {s:?}");
        assert_eq!(int_outcome(string_to_variant("UInt32", s)), std_outcome::<u32>(s), "UInt32 {s:?}");
        assert_eq!(int_outcome(string_to_variant("Int64", s)), std_outcome::<i64>(s), "Int64 {s:?}");
        assert_eq!(int_outcome(string_to_variant("UInt64", s)), std_outcome::<u64>(s), "UInt64 {s:?}");
    }
}

#[test]
fn boolean_float_and_string_arguments() {
    assert!(matches!(string_to_variant("Boolean", "true"), Ok(ArgValue::Boolean(true))));
    assert!(matches!(string_to_variant("Boolean", "false"), Ok(ArgValue::Boolean(false))));
    for s in ["True", "1", "", " true"] {
        let e = string_to_variant("Boolean", s).unwrap_err();
        assert_eq!(e, s.parse::<bool>().unwrap_err().to_string());
    }
    for s in ["1.5", "-2e3", "inf", "NaN", ".5", "", "abc", "1e", "1.2.3"] {
        match string_to_variant("Double", s) {
            Ok(ArgValue::Double(t)) => {
                assert_eq!(t, s);
                assert!(s.parse::<f64>().is_ok(), "{s:?}");
            }
            Ok(other) => panic!("unexpected {other:?}"),
            Err(e) => assert_eq!(e, s.parse::<f64>().unwrap_err().to_string(), "{s:?}"),
        }
        match string_to_variant("Float", s) {
            Ok(ArgValue::Float(t)) => {
                assert_eq!(t, s);
                assert!(s.parse::<f32>().is_ok(), "{s:?}");
            }
            Ok(other) => panic!("unexpected {other:?}"),
            Err(e) => assert_eq!(e, s.parse::<f32>().unwrap_err().to_string(), "{s:?}"),
        }
    }
    assert!(matches!(string_to_variant("String", " x "), Ok(ArgValue::String(t)) if t == " x "));
    assert_eq!(string_to_variant("DateTime", "now").unwrap_err(), "unsupported method arg type: DateTime");
}

#[test]
fn integer_reader_reports_the_first_problem() {
    assert_eq!(parse_int("", 0, 255), Err(IntError::Empty));
    assert_eq!(parse_int("300x", 0, 255), Err(IntError::PosOverflow));
    assert_eq!(parse_int("2x", 0, 255), Err(IntError::InvalidDigit));
    assert_eq!(parse_int("-5", 0, 255), Err(IntError::InvalidDigit));
    assert_eq!(parse_int("-129", -128, 127), Err(IntError::NegOverflow));
    assert_eq!(parse_int("+42", -128, 127), Ok(42));
}

#[test]
fn call_inputs_stop_at_the_first_bad_one() {
    let arg = |ty: &str, v: &str| MethodArgValue { data_type: ty.to_string(), value: v.to_string() };
    let ok = convert_inputs(&vec![arg("Int32", "5"), arg("Boolean", "false"), arg("String", "s")]).unwrap();
    assert_eq!(ok.len(), 3);
    assert!(matches!(ok[0], ArgValue::Int32(5)));
    let err = convert_inputs(&vec![arg("Int32", "5"), arg("Byte", "999"), arg("Boolean", "maybe")]).unwrap_err();
    assert_eq!(err, "number too large to fit in target type");
    assert!(convert_inputs(&vec![]).unwrap().is_empty());
}
