//! The flat records a host front end exchanges with this library: optional
//! fields flattened into nullable slots so they can cross a foreign-function
//! boundary, with verified conversions into the library's own types.

use vstd::prelude::*;

use crate::locate::{DeviceAddress, DeviceIdentity, DeviceOptions, DEFAULT_PRODUCT_ID, DEFAULT_VENDOR_ID};

verus! {

/// A flat bus/port pair as submitted over the bridge.
#[allow(non_camel_case_types)]
#[derive(Clone, Copy, PartialEq, Eq, Structural, Debug)]
pub struct wire___record__u8_u8 {
    pub field0: u8,
    pub field1: u8,
}

impl wire___record__u8_u8 {
    /// The device address this pair denotes: bus first, port second.
    pub fn to_address(self) -> (a: DeviceAddress)
        ensures
            a == (DeviceAddress { bus: self.field0, port: self.field1 }),
    {
        DeviceAddress { bus: self.field0, port: self.field1 }
    }
}

impl Default for wire___record__u8_u8 {
    /// The zero pair.
    fn default() -> (d: Self)
        ensures
            d == (wire___record__u8_u8 { field0: 0, field1: 0 }),
    {
        wire___record__u8_u8 { field0: 0, field1: 0 }
    }
}

/// Device-selection overrides in the flat form a host front end submits:
/// a zero vendor identifier and absent fields mean the compiled-in defaults
/// of the supported chipset family.
#[allow(non_camel_case_types)]
#[derive(Clone, Copy, PartialEq, Eq, Debug)]
pub struct wire_DevelOptions {
    pub vendor_id: u16,
    pub product_id: Option<u16>,
    pub address: Option<wire___record__u8_u8>,
    pub endpoint_address: Option<u8>,
    pub interface_number: Option<u8>,
}

impl Default for wire_DevelOptions {
    /// No overrides at all.
    fn default() -> (d: Self)
        ensures
            d == (wire_DevelOptions {
                vendor_id: 0,
                product_id: None,
                address: None,
                endpoint_address: None,
                interface_number: None,
            }),
    {
        wire_DevelOptions {
            vendor_id: 0,
            product_id: None,
            address: None,
            endpoint_address: None,
            interface_number: None,
        }
    }
}

impl wire_DevelOptions {
    /// The device options these overrides denote: an identity override only
    /// where a vendor or product was given, missing halves filled with the
    /// family defaults; the address pair read as bus and port.
    pub open spec fn options_spec(self) -> DeviceOptions {
        DeviceOptions {
            identity: if self.vendor_id == 0 && self.product_id is None {
                None
            } else {
                Some(
                    DeviceIdentity {
                        vendor_id: if self.vendor_id == 0 {
                            DEFAULT_VENDOR_ID
                        } else {
                            self.vendor_id
                        },
                        product_id: match self.product_id {
                            Some(p) => p,
                            None => DEFAULT_PRODUCT_ID,
                        },
                    },
                )
            },
            address: match self.address {
                Some(w) => Some(DeviceAddress { bus: w.field0, port: w.field1 }),
                None => None,
            },
            endpoint_address: self.endpoint_address,
            interface_number: self.interface_number,
        }
    }

    /// Converts the flat overrides into the library's device options.
    pub fn into_options(self) -> (o: DeviceOptions)
        ensures
            o == self.options_spec(),
    {
        let identity = if self.vendor_id == 0 && self.product_id.is_none() {
            None
        } else {
            Some(
                DeviceIdentity {
                    vendor_id: if self.vendor_id == 0 {
                        DEFAULT_VENDOR_ID
                    } else {
                        self.vendor_id
                    },
                    product_id: match self.product_id {
                        Some(p) => p,
                        None => DEFAULT_PRODUCT_ID,
                    },
                },
            )
        };
        let address = match self.address {
            Some(w) => Some(w.to_address()),
            None => None,
        };
        DeviceOptions {
            identity,
            address,
            endpoint_address: self.endpoint_address,
            interface_number: self.interface_number,
        }
    }
}

} // verus!
