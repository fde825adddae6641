//! Device resolution: choosing which attached device to program, from the
//! enumerated candidates and the caller's optional identity and address
//! overrides.  Enumeration and opening are transport work; the decision is
//! made here.

use vstd::prelude::*;

verus! {

/// Vendor identifier of the supported chipset family.
pub const DEFAULT_VENDOR_ID: u16 = 0x1189;

/// Product identifier of the supported chipset family.
pub const DEFAULT_PRODUCT_ID: u16 = 0x8890;

/// Endpoint the programming interface answers on, for stock firmware.
pub const DEFAULT_ENDPOINT_ADDRESS: u8 = 0x02;

/// Interface number of the programming interface, for stock firmware.
pub const DEFAULT_INTERFACE_NUMBER: u8 = 1;

/// A USB vendor/product identity.
#[derive(Clone, Copy, PartialEq, Eq, Structural, Debug)]
pub struct DeviceIdentity {
    pub vendor_id: u16,
    pub product_id: u16,
}

/// A bus/port position, disambiguating devices that share an identity.
#[derive(Clone, Copy, PartialEq, Eq, Structural, Debug)]
pub struct DeviceAddress {
    pub bus: u8,
    pub port: u8,
}

/// Caller overrides for device selection; absent fields fall back to the
/// compiled-in defaults of the supported chipset family.
#[derive(Clone, Copy, PartialEq, Eq, Debug)]
pub struct DeviceOptions {
    pub identity: Option<DeviceIdentity>,
    pub address: Option<DeviceAddress>,
    pub endpoint_address: Option<u8>,
    pub interface_number: Option<u8>,
}

impl Default for DeviceOptions {
    /// No overrides: every field falls back to its default.
    fn default() -> (o: DeviceOptions)
        ensures
            o == (DeviceOptions {
                identity: None,
                address: None,
                endpoint_address: None,
                interface_number: None,
            }),
    {
        DeviceOptions { identity: None, address: None, endpoint_address: None, interface_number: None }
    }
}

/// One enumerated attached device, as plain values.
#[derive(Clone, Copy, PartialEq, Eq, Structural, Debug)]
pub struct DeviceInfo {
    pub identity: DeviceIdentity,
    pub address: DeviceAddress,
}

/// Why no device handle could be produced.  None of these is retried.
#[derive(Clone, Copy, PartialEq, Eq, Structural, Debug)]
pub enum LocateError {
    /// No attached device matches the requested identity (and address, when
    /// one was given).
    DeviceNotFound,
    /// More than one device matches and no address narrows the choice; the
    /// count is reported so the caller can supply a bus/port.
    AmbiguousDevice { candidates: usize },
    /// The host denied access when opening the device.
    PermissionDenied,
    /// Another session already holds the device open.
    DeviceBusy,
}

impl DeviceOptions {
    /// The identity to search for: the override, or the family default.
    pub open spec fn wanted_identity_spec(self) -> DeviceIdentity {
        match self.identity {
            Some(id) => id,
            None => DeviceIdentity {
                vendor_id: DEFAULT_VENDOR_ID,
                product_id: DEFAULT_PRODUCT_ID,
            },
        }
    }

    /// The identity to search for: the override, or the family default.
    pub fn wanted_identity(&self) -> (id: DeviceIdentity)
        ensures
            id == self.wanted_identity_spec(),
    {
        match self.identity {
            Some(id) => id,
            None => DeviceIdentity { vendor_id: DEFAULT_VENDOR_ID, product_id: DEFAULT_PRODUCT_ID },
        }
    }

    /// The endpoint to open: the override, or the family default.
    pub fn effective_endpoint(&self) -> (e: u8)
        ensures
            e == match self.endpoint_address {
                Some(v) => v,
                None => DEFAULT_ENDPOINT_ADDRESS,
            },
    {
        match self.endpoint_address {
            Some(v) => v,
            None => DEFAULT_ENDPOINT_ADDRESS,
        }
    }

    /// The interface to claim: the override, or the family default.
    pub fn effective_interface(&self) -> (n: u8)
        ensures
            n == match self.interface_number {
                Some(v) => v,
                None => DEFAULT_INTERFACE_NUMBER,
            },
    {
        match self.interface_number {
            Some(v) => v,
            None => DEFAULT_INTERFACE_NUMBER,
        }
    }

    /// The same options, narrowed to one bus/port.
    pub open spec fn with_address_spec(self, a: DeviceAddress) -> DeviceOptions {
        DeviceOptions { address: Some(a), ..self }
    }

    /// The same options, narrowed to one bus/port.
    pub fn with_address(&self, a: DeviceAddress) -> (o: DeviceOptions)
        ensures
            o == self.with_address_spec(a),
    {
        DeviceOptions {
            identity: self.identity,
            address: Some(a),
            endpoint_address: self.endpoint_address,
            interface_number: self.interface_number,
        }
    }
}

/// Whether device `d` satisfies the identity wanted by `o` and, when one is
/// given, its address.
pub open spec fn matches_options(d: DeviceInfo, o: DeviceOptions) -> bool {
    &&& d.identity == o.wanted_identity_spec()
    &&& (o.address matches Some(a) ==> d.address == a)
}

/// How many enumerated devices satisfy the options.
pub open spec fn count_matching(devices: Seq<DeviceInfo>, o: DeviceOptions) -> nat
    decreases devices.len(),
{
    if devices.len() == 0 {
        0
    } else {
        count_matching(devices.drop_last(), o) + if matches_options(devices.last(), o) {
            1nat
        } else {
            0nat
        }
    }
}

/// A match exists exactly when the count is positive; the count never exceeds
/// the number of devices.
pub proof fn lemma_count_matching_bounds(devices: Seq<DeviceInfo>, o: DeviceOptions)
    ensures
        count_matching(devices, o) <= devices.len(),
        count_matching(devices, o) > 0 <==> exists|i: int|
            0 <= i < devices.len() && matches_options(#[trigger] devices[i], o),
    decreases devices.len(),
{
    if devices.len() > 0 {
        lemma_count_matching_bounds(devices.drop_last(), o);
        if matches_options(devices.last(), o) {
        } else {
            assert forall|i: int|
                0 <= i < devices.len() && matches_options(#[trigger] devices[i], o) implies 0 <= i
                < devices.drop_last().len() && matches_options(devices.drop_last()[i], o) by {
                assert(i < devices.len() - 1);
                assert(devices.drop_last()[i] == devices[i]);
            }
        }
    }
}

/// What `resolve` may answer for the given devices and options: success names
/// the first match, and each error names exactly the situation it reports.
pub open spec fn resolution_ok(
    devices: Seq<DeviceInfo>,
    o: DeviceOptions,
    r: Result<usize, LocateError>,
) -> bool {
    match r {
        Ok(i) => {
            &&& 0 <= i < devices.len()
            &&& matches_options(devices[i as int], o)
            &&& forall|j: int| 0 <= j < i ==> !matches_options(#[trigger] devices[j], o)
            &&& (o.address is None ==> count_matching(devices, o) == 1)
        },
        Err(e) => match e {
            LocateError::DeviceNotFound => count_matching(devices, o) == 0,
            LocateError::AmbiguousDevice { candidates } => o.address is None && candidates
                == count_matching(devices, o) && candidates > 1,
            _ => false,
        },
    }
}

/// Once an address narrows the request, the answer is never ambiguity: it is
/// a unique device or `DeviceNotFound`.  In particular, a request that was
/// ambiguous becomes either resolved or not-found when an address is added,
/// and a request that already resolved uniquely can never become ambiguous.
pub proof fn lemma_addressed_never_ambiguous(
    devices: Seq<DeviceInfo>,
    o: DeviceOptions,
    r: Result<usize, LocateError>,
)
    requires
        o.address is Some,
        resolution_ok(devices, o, r),
    ensures
        r is Ok || r == Err::<usize, LocateError>(LocateError::DeviceNotFound),
{
}

/// Adding an address disambiguator never enlarges the candidate set.
pub proof fn lemma_address_narrows(devices: Seq<DeviceInfo>, o: DeviceOptions, a: DeviceAddress)
    requires
        o.address is None,
    ensures
        count_matching(devices, o.with_address_spec(a)) <= count_matching(devices, o),
    decreases devices.len(),
{
    if devices.len() > 0 {
        lemma_address_narrows(devices.drop_last(), o, a);
    }
}

/// Chooses the device to program.  Exactly one candidate: chosen.  None:
/// `DeviceNotFound`.  Several without an address: `AmbiguousDevice` with the
/// candidate count, never a guess.  Several with an address: the device at
/// that bus/port, or `DeviceNotFound`.
pub fn resolve(devices: &Vec<DeviceInfo>, options: &DeviceOptions) -> (r: Result<
    usize,
    LocateError,
>)
    ensures
        resolution_ok(devices@, *options, r),
{
    let wanted = options.wanted_identity();
    let mut count: usize = 0;
    let mut first: usize = 0;
    let mut i: usize = 0;
    while i < devices.len()
        invariant
            i <= devices@.len(),
            wanted == options.wanted_identity_spec(),
            count == count_matching(devices@.take(i as int), *options),
            count <= i,
            count > 0 ==> first < i && matches_options(devices@[first as int], *options)
                && forall|j: int| 0 <= j < first ==> !matches_options(#[trigger] devices@[j], *options),
            count == 0 ==> forall|j: int| 0 <= j < i ==> !matches_options(#[trigger] devices@[j], *options),
        decreases devices@.len() - i,
    {
        let d = &devices[i];
        let matched = if d.identity == wanted {
            match options.address {
                Some(a) => d.address == a,
                None => true,
            }
        } else {
            false
        };
        proof {
            assert(matched == matches_options(devices@[i as int], *options));
            assert(devices@.take(i + 1).drop_last() =~= devices@.take(i as int));
            assert(devices@.take(i + 1).last() == devices@[i as int]);
        }
        if matched {
            if count == 0 {
                first = i;
            }
            count = count + 1;
        }
        i = i + 1;
    }
    proof {
        assert(devices@.take(devices@.len() as int) =~= devices@);
        lemma_count_matching_bounds(devices@, *options);
    }
    if count == 0 {
        Err(LocateError::DeviceNotFound)
    } else if count == 1 {
        Ok(first)
    } else if options.address.is_some() {
        Ok(first)
    } else {
        Err(LocateError::AmbiguousDevice { candidates: count })
    }
}

} // verus!
