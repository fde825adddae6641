use ch57x_keyboard_tool::bridge::{wire_DevelOptions, wire___record__u8_u8};
use ch57x_keyboard_tool::catalog::supported_layouts;
use ch57x_keyboard_tool::layout::LayoutShape;
use ch57x_keyboard_tool::locate::{DeviceAddress, DEFAULT_PRODUCT_ID, DEFAULT_VENDOR_ID};

#[test]
fn catalog_lists_the_five_supported_models() {
    let layouts = supported_layouts();
    assert_eq!(layouts.len(), 5);
    let expected = [
        ("3×4 with 2 knobs (Bluetooth)", 3u8, 4u8, 2u8),
        ("3×3 with 2 knobs", 3, 3, 2),
        ("3×2 with 1 knob", 2, 3, 1),
        ("3×1 with 1 knob", 1, 3, 1),
        ("4×1 without knobs", 1, 4, 0),
    ];
    for (entry, (name, rows, columns, knobs)) in layouts.iter().zip(expected.iter()) {
        assert_eq!(entry.name, *name);
        assert_eq!(entry.rows, *rows);
        assert_eq!(entry.columns, *columns);
        assert_eq!(entry.knobs, *knobs);
        assert!(!entry.description.is_empty());
    }
}

#[test]
fn catalog_entry_yields_its_shape() {
    let layouts = supported_layouts();
    let shape = layouts[0].shape();
    assert_eq!(shape, LayoutShape { rows: 3, columns: 4, knobs: 2 });
}

#[test]
fn wire_pair_converts_to_bus_and_port() {
    let pair = wire___record__u8_u8 { field0: 3, field1: 7 };
    assert_eq!(pair.to_address(), DeviceAddress { bus: 3, port: 7 });
    let zero = wire___record__u8_u8::default();
    assert_eq!(zero, wire___record__u8_u8 { field0: 0, field1: 0 });
}

#[test]
fn empty_wire_options_mean_no_overrides() {
    let opts = wire_DevelOptions::default().into_options();
    assert_eq!(opts.identity, None);
    assert_eq!(opts.address, None);
    assert_eq!(opts.endpoint_address, None);
    assert_eq!(opts.interface_number, None);
}

#[test]
fn partial_identity_override_fills_the_family_default() {
    let wire = wire_DevelOptions {
        vendor_id: 0x1234,
        product_id: None,
        address: Some(wire___record__u8_u8 { field0: 1, field1: 2 }),
        endpoint_address: Some(0x04),
        interface_number: None,
    };
    let opts = wire.into_options();
    let id = opts.identity.unwrap();
    assert_eq!(id.vendor_id, 0x1234);
    assert_eq!(id.product_id, DEFAULT_PRODUCT_ID);
    assert_eq!(opts.address, Some(DeviceAddress { bus: 1, port: 2 }));
    assert_eq!(opts.endpoint_address, Some(0x04));
    assert_eq!(opts.interface_number, None);
}

#[test]
fn product_override_alone_fills_the_default_vendor() {
    let wire = wire_DevelOptions {
        vendor_id: 0,
        product_id: Some(0x8891),
        address: None,
        endpoint_address: None,
        interface_number: None,
    };
    let opts = wire.into_options();
    let id = opts.identity.unwrap();
    assert_eq!(id.vendor_id, DEFAULT_VENDOR_ID);
    assert_eq!(id.product_id, 0x8891);
}
