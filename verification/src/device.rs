use vstd::prelude::*;

verus! {

/// Abstract value of a [`Device`] record: both fields as character sequences.
#[verifier::ext_equal]
pub struct DeviceView {
    pub name: Seq<char>,
    pub mac_addr: Seq<char>,
}

/// A device the manager has successfully connected to: display name plus
/// identity (the radio hardware address in canonical string form). Immutable
/// once created; the manager only ever appends records to its collection.
#[derive(Clone, Debug)]
pub struct Device {
    pub name: String,
    pub mac_addr: String,
}

impl View for Device {
    type V = DeviceView;

    open spec fn view(&self) -> DeviceView {
        DeviceView { name: self.name@, mac_addr: self.mac_addr@ }
    }
}

impl Device {
    pub fn new(name: String, mac_addr: String) -> (r: Self)
        ensures
            r@.name == name@,
            r@.mac_addr == mac_addr@,
    {
        Self { name, mac_addr }
    }
}

/// Abstract value of a [`DiscoveredDevice`]: the advertisement as the
/// enumeration reports it.
#[verifier::ext_equal]
pub struct DiscoveredDeviceView {
    pub mac_address: Seq<char>,
    pub name: Option<Seq<char>>,
    pub connected: bool,
}

/// One device as the discovery transport enumerates it: its identity, its
/// optionally advertised name, and whether a bearer to it is already up.
#[derive(Debug)]
pub struct DiscoveredDevice {
    pub mac_address: String,
    pub name: Option<String>,
    pub connected: bool,
}

impl View for DiscoveredDevice {
    type V = DiscoveredDeviceView;

    open spec fn view(&self) -> DiscoveredDeviceView {
        DiscoveredDeviceView {
            mac_address: self.mac_address@,
            name: match self.name {
                Some(n) => Some(n@),
                None => None,
            },
            connected: self.connected,
        }
    }
}

impl DiscoveredDevice {
    /// A fresh value with the same contents, field by field.
    pub fn duplicate(&self) -> (r: Self)
        ensures
            r@ == self@,
    {
        let r = Self {
            mac_address: self.mac_address.clone(),
            name: match &self.name {
                Some(n) => Some(n.clone()),
                None => None,
            },
            connected: self.connected,
        };
        proof {
            assert(r@ =~= self@);
        }
        r
    }
}

/// The record that a successful connection to `d` yields: the identity is the
/// device's address, and the display name defaults to the sentinel `"None"`
/// when the device advertised no name.
pub open spec fn record_of(d: DiscoveredDeviceView) -> DeviceView {
    DeviceView {
        name: match d.name {
            Some(n) => n,
            None => "None"@,
        },
        mac_addr: d.mac_address,
    }
}

/// Builds the record for a freshly connected device.
pub fn make_record(d: &DiscoveredDevice) -> (r: Device)
    ensures
        r@ == record_of(d@),
{
    let name = match &d.name {
        Some(n) => n.clone(),
        None => String::from_str("None"),
    };
    let r = Device::new(name, d.mac_address.clone());
    proof {
        assert(r@ =~= record_of(d@));
    }
    r
}

} // verus!
