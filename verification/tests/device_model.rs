use radiacode::device_model::{model_from_advertisement, model_from_serial, serial_from_advertisement};

#[test]
fn parses_rc110_model() {
    assert_eq!(model_from_serial("RC-110-006806"), "RC-110");
}

#[test]
fn parses_rc10x_model() {
    assert_eq!(model_from_serial("RC-101-123456"), "RC-101");
}

#[test]
fn parses_serial_from_advertisement() {
    assert_eq!(
        serial_from_advertisement("RadiaCode#RC-110-006806"),
        Some("RC-110-006806".into())
    );
}

#[test]
fn parses_advertisement_case_insensitive() {
    assert_eq!(
        serial_from_advertisement("radiacode#RC-101-123456"),
        Some("RC-101-123456".into())
    );
}

#[test]
fn ignores_advertisement_without_hash() {
    assert_eq!(serial_from_advertisement("RadiaCode"), None);
}

#[test]
fn derives_model_from_advertisement() {
    assert_eq!(
        model_from_advertisement("RadiaCode#RC-110-006806"),
        Some("RC-110".into())
    );
}

#[test]
fn serial_without_second_part_is_unknown_model() {
    assert_eq!(model_from_serial("RC"), "Unknown");
    assert_eq!(model_from_serial("RC-"), "Unknown");
    assert_eq!(model_from_serial("-110"), "Unknown");
    assert_eq!(model_from_serial(""), "Unknown");
    assert_eq!(model_from_serial("RC-110"), "RC-110");
}

#[test]
fn advertisement_serial_is_trimmed_and_must_not_be_empty() {
    assert_eq!(
        serial_from_advertisement("RADIACODE#  RC-102-000001 \t"),
        Some("RC-102-000001".into())
    );
    assert_eq!(serial_from_advertisement("RadiaCode#   "), None);
    assert_eq!(serial_from_advertisement("Other#RC-102-000001"), None);
    assert_eq!(serial_from_advertisement("RadiaCod#RC-102-000001"), None);
    assert_eq!(model_from_advertisement("RadiaCode"), None);
}
