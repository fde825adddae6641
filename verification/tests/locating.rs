use ch57x_keyboard_tool::locate::{
    resolve, DeviceAddress, DeviceIdentity, DeviceInfo, DeviceOptions, LocateError,
    DEFAULT_ENDPOINT_ADDRESS, DEFAULT_INTERFACE_NUMBER, DEFAULT_PRODUCT_ID, DEFAULT_VENDOR_ID,
};

fn default_identity() -> DeviceIdentity {
    DeviceIdentity { vendor_id: DEFAULT_VENDOR_ID, product_id: DEFAULT_PRODUCT_ID }
}

fn device(bus: u8, port: u8) -> DeviceInfo {
    DeviceInfo { identity: default_identity(), address: DeviceAddress { bus, port } }
}

fn no_overrides() -> DeviceOptions {
    DeviceOptions { identity: None, address: None, endpoint_address: None, interface_number: None }
}

#[test]
fn scenario_two_twins_need_an_address() {
    let devices = vec![device(1, 4), device(3, 2)];
    let plain = no_overrides();
    assert_eq!(
        resolve(&devices, &plain),
        Err(LocateError::AmbiguousDevice { candidates: 2 })
    );
    let first = plain.with_address(DeviceAddress { bus: 1, port: 4 });
    assert_eq!(resolve(&devices, &first), Ok(0));
    let second = plain.with_address(DeviceAddress { bus: 3, port: 2 });
    assert_eq!(resolve(&devices, &second), Ok(1));
}

#[test]
fn address_on_ambiguous_set_never_reports_ambiguity() {
    let devices = vec![device(1, 4), device(3, 2)];
    let elsewhere = no_overrides().with_address(DeviceAddress { bus: 9, port: 9 });
    assert_eq!(resolve(&devices, &elsewhere), Err(LocateError::DeviceNotFound));
}

#[test]
fn single_candidate_is_chosen_without_an_address() {
    let stranger = DeviceInfo {
        identity: DeviceIdentity { vendor_id: 0x1234, product_id: 0x5678 },
        address: DeviceAddress { bus: 1, port: 1 },
    };
    let devices = vec![stranger, device(2, 7)];
    assert_eq!(resolve(&devices, &no_overrides()), Ok(1));
}

#[test]
fn no_candidate_reports_not_found() {
    let devices = vec![];
    assert_eq!(resolve(&devices, &no_overrides()), Err(LocateError::DeviceNotFound));
}

#[test]
fn identity_override_narrows_the_search() {
    let special = DeviceInfo {
        identity: DeviceIdentity { vendor_id: 0x1234, product_id: 0x5678 },
        address: DeviceAddress { bus: 5, port: 5 },
    };
    let devices = vec![device(1, 1), special];
    let opts = DeviceOptions {
        identity: Some(DeviceIdentity { vendor_id: 0x1234, product_id: 0x5678 }),
        address: None,
        endpoint_address: None,
        interface_number: None,
    };
    assert_eq!(resolve(&devices, &opts), Ok(1));
}

#[test]
fn endpoint_and_interface_fall_back_to_family_defaults() {
    let plain = no_overrides();
    assert_eq!(plain.effective_endpoint(), DEFAULT_ENDPOINT_ADDRESS);
    assert_eq!(plain.effective_interface(), DEFAULT_INTERFACE_NUMBER);
    let tuned = DeviceOptions {
        identity: None,
        address: None,
        endpoint_address: Some(0x04),
        interface_number: Some(2),
    };
    assert_eq!(tuned.effective_endpoint(), 0x04);
    assert_eq!(tuned.effective_interface(), 2);
}

#[test]
fn default_options_have_no_overrides() {
    let d = DeviceOptions::default();
    assert_eq!(d, no_overrides());
    assert_eq!(d.wanted_identity(), default_identity());
}
