use magicwindows::hardware::{apple_keyboards_from_output, parse_pnp_output};

#[test]
fn parses_array_of_devices() {
    let json = r#"[{"FriendlyName":"Magic Keyboard","HardwareID":"BTHENUM\\Dev_VID_05AC","Status":"OK"}]"#;
    let r = parse_pnp_output(json).unwrap();
    assert_eq!(r.len(), 1);
    assert_eq!(r[0].friendly_name, "Magic Keyboard");
}

#[test]
fn parses_single_device_object() {
    // PowerShell's ConvertTo-Json collapses a 1-element array to an object.
    let json = r#"{"FriendlyName":"Magic Keyboard","HardwareID":"BTHENUM\\Dev_VID_05AC","Status":"OK"}"#;
    let r = parse_pnp_output(json).unwrap();
    assert_eq!(r.len(), 1);
}

#[test]
fn missing_fields_default_to_empty_string() {
    let json = r#"[{"FriendlyName":null}]"#;
    let r = parse_pnp_output(json).unwrap();
    assert_eq!(r[0].friendly_name, "");
    assert_eq!(r[0].hardware_id, "");
}

#[test]
fn null_top_level_yields_empty_vec() {
    // serde parses "null" as Value::Null, which our match catches.
    let r = parse_pnp_output("null").unwrap();
    assert!(r.is_empty());
}

#[test]
fn all_fields_are_read() {
    let json = r#"[{"FriendlyName":"A","HardwareID":"HID\\VID_05AC","Status":"OK"},{"Status":"Error","FriendlyName":"B"}]"#;
    let r = parse_pnp_output(json).unwrap();
    assert_eq!(r.len(), 2);
    assert_eq!((r[0].friendly_name.as_str(), r[0].hardware_id.as_str(), r[0].status.as_str()), ("A", "HID\\VID_05AC", "OK"));
    assert_eq!((r[1].friendly_name.as_str(), r[1].hardware_id.as_str(), r[1].status.as_str()), ("B", "", "Error"));
}

#[test]
fn non_object_array_elements_give_empty_fields() {
    let r = parse_pnp_output("[1, \"x\"]").unwrap();
    assert_eq!(r.len(), 2);
    assert_eq!(r[1].friendly_name, "");
}

#[test]
fn invalid_json_is_an_error_with_the_raw_text() {
    let e = parse_pnp_output("{oops").unwrap_err();
    assert!(e.starts_with("parse pnp output: "));
    assert!(e.ends_with("\nraw: {oops"));
}

#[test]
fn enumeration_output_is_trimmed_and_checked() {
    assert!(apple_keyboards_from_output(true, "  \r\n", "").unwrap().is_empty());
    assert!(apple_keyboards_from_output(true, "null\n", "").unwrap().is_empty());
    assert_eq!(
        apple_keyboards_from_output(false, "", "boom").unwrap_err(),
        "enumerate failed: boom"
    );
    let r = apple_keyboards_from_output(true, " [{\"FriendlyName\":\"K\"}] \n", "").unwrap();
    assert_eq!(r[0].friendly_name, "K");
}
