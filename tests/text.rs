use cameleon_genapi::elem_type::{
    AccessMode, CachingMode, IntegerRepresentation, MergePriority, NameSpace, StandardNameSpace,
    Visibility,
};
use cameleon_genapi::error::GenApiError;
use cameleon_genapi::text::{convert_to_bool, convert_to_bool_opt, convert_to_int, convert_to_uint};
use cameleon_genapi::variable::VariableKind;

#[test]
fn integers_in_decimal_and_hex() {
    assert_eq!(convert_to_int("-12"), Ok(-12));
    assert_eq!(convert_to_int("+7"), Ok(7));
    assert_eq!(convert_to_int("0x1F"), Ok(31));
    assert_eq!(convert_to_int("0XfF"), Ok(255));
    assert_eq!(convert_to_int("12a"), Err(GenApiError::InvalidData));
    assert_eq!(convert_to_int(""), Err(GenApiError::InvalidData));
    assert_eq!(convert_to_int("9223372036854775808"), Err(GenApiError::InvalidData));
    assert_eq!(convert_to_uint("0xFFFFFFFFFFFFFFFF"), Ok(u64::MAX));
    assert_eq!(convert_to_uint("-1"), Err(GenApiError::InvalidData));
}

#[test]
fn booleans_in_text() {
    assert_eq!(convert_to_bool_opt("Yes"), Some(true));
    assert_eq!(convert_to_bool_opt("false"), Some(false));
    assert_eq!(convert_to_bool_opt("maybe"), None);
    assert!(convert_to_bool("true"));
    assert!(!convert_to_bool("No"));
}

#[test]
fn enumeration_names_in_text() {
    assert_eq!(NameSpace::from_text("Standard"), Some(NameSpace::Standard));
    assert_eq!(StandardNameSpace::from_text("None"), Some(StandardNameSpace::NoNameSpace));
    assert_eq!(MergePriority::from_text("-1"), Some(MergePriority::Low));
    assert_eq!(AccessMode::from_text("RW"), Some(AccessMode::RW));
    assert_eq!(IntegerRepresentation::from_text("IPV4Address"), Some(IntegerRepresentation::IpV4Address));
    assert_eq!(Visibility::from_text("Guru"), Some(Visibility::Guru));
    assert_eq!(CachingMode::from_text("Cached"), None);
    assert_eq!(NameSpace::default(), NameSpace::Custom);
    assert_eq!(CachingMode::default(), CachingMode::WriteThrough);
}

#[test]
fn variable_names() {
    assert_eq!(VariableKind::from_str("Width"), Ok(VariableKind::Value));
    assert_eq!(VariableKind::from_str("Width.Value"), Ok(VariableKind::Value));
    assert_eq!(VariableKind::from_str("Width.Min"), Ok(VariableKind::Min));
    assert_eq!(VariableKind::from_str("Width.Inc"), Ok(VariableKind::Inc));
    assert_eq!(
        VariableKind::from_str("Format.Enum.Mono8"),
        Ok(VariableKind::Enum("Mono8".to_string()))
    );
    assert_eq!(VariableKind::from_str("Width.Foo"), Err(GenApiError::InvalidNode));
    assert_eq!(VariableKind::from_str("Width.Value.X"), Err(GenApiError::InvalidNode));
}
