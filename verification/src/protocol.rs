use vstd::prelude::*;

pub mod weisheng;

verus! {

/// The identifying numbers of a HID interface, by which its protocol is chosen.
#[derive(Clone, Copy, Debug, Hash, PartialEq, Eq, Structural)]
pub struct DevSpec {
    pub vendor_id: u16,
    pub product_id: u16,
    pub usage_page: u16,
    pub usage_id: u16,
}

/// The protocols that keyboards are driven with.
#[derive(Clone, Copy, Debug, PartialEq, Eq, Structural)]
pub enum KeyboardProtocol {
    Weisheng,
}

/// The interfaces with a known protocol, and their protocol.
pub open spec fn protocol_table() -> Map<DevSpec, KeyboardProtocol> {
    map![
        DevSpec { vendor_id: 0x320F, product_id: 0x5055, usage_page: 0xFF1C, usage_id: 0x92 } => KeyboardProtocol::Weisheng,
        DevSpec { vendor_id: 0x320F, product_id: 0x5088, usage_page: 0xFF1C, usage_id: 0x92 } => KeyboardProtocol::Weisheng,
    ]
}

/// The protocol of an interface, if the table knows it.
pub open spec fn lookup_protocol(spec: DevSpec) -> Option<KeyboardProtocol> {
    if protocol_table().dom().contains(spec) {
        Some(protocol_table()[spec])
    } else {
        None
    }
}

/// The table of supported interfaces, one entry per interface.
pub fn protocol_map() -> (entries: Vec<(DevSpec, KeyboardProtocol)>)
    ensures
        entries@.len() == protocol_table().dom().len(),
        forall|i: int|
            0 <= i < entries@.len() ==> protocol_table().dom().contains((#[trigger] entries@[i]).0)
                && protocol_table()[entries@[i].0] == entries@[i].1,
        forall|spec: DevSpec|
            protocol_table().dom().contains(spec) ==> exists|i: int|
                0 <= i < entries@.len() && (#[trigger] entries@[i]).0 == spec,
{
    let a = DevSpec { vendor_id: 0x320F, product_id: 0x5055, usage_page: 0xFF1C, usage_id: 0x92 };
    let b = DevSpec { vendor_id: 0x320F, product_id: 0x5088, usage_page: 0xFF1C, usage_id: 0x92 };
    let entries = vec![(a, KeyboardProtocol::Weisheng), (b, KeyboardProtocol::Weisheng)];
    proof {
        assert(protocol_table().dom() =~= set![a, b]);
        assert(entries@[0].0 == a);
        assert(entries@[1].0 == b);
    }
    entries
}

/// The protocol of a device's interface, `None` when the device is not supported.
pub fn match_protocol(dev: &DevSpec) -> (proto: Option<KeyboardProtocol>)
    ensures
        proto == lookup_protocol(*dev),
{
    let entries = protocol_map();
    let mut i: usize = 0;
    while i < entries.len()
        invariant
            i <= entries@.len(),
            entries@.len() == protocol_table().dom().len(),
            forall|k: int|
                0 <= k < entries@.len() ==> protocol_table().dom().contains(
                    (#[trigger] entries@[k]).0,
                ) && protocol_table()[entries@[k].0] == entries@[k].1,
            forall|spec: DevSpec|
                protocol_table().dom().contains(spec) ==> exists|k: int|
                    0 <= k < entries@.len() && (#[trigger] entries@[k]).0 == spec,
            forall|k: int| 0 <= k < i ==> (#[trigger] entries@[k]).0 != *dev,
        decreases entries@.len() - i,
    {
        if entries[i].0 == *dev {
            return Some(entries[i].1);
        }
        i = i + 1;
    }
    None
}

/// Whether the device's interface has a known protocol.
pub fn is_supported(dev: &DevSpec) -> (supported: bool)
    ensures
        supported == protocol_table().dom().contains(*dev),
{
    match_protocol(dev).is_some()
}

/// The positions in `specs` of the supported interfaces, in increasing order.
pub fn supported_positions(specs: &[DevSpec]) -> (idx: Vec<usize>)
    ensures
        forall|k: int|
            0 <= k < idx@.len() ==> (#[trigger] idx@[k]) < specs@.len()
                && protocol_table().dom().contains(specs@[idx@[k] as int]),
        forall|k: int, l: int| 0 <= k < l < idx@.len() ==> idx@[k] < idx@[l],
        forall|j: int|
            0 <= j < specs@.len() && protocol_table().dom().contains(#[trigger] specs@[j])
                ==> idx@.contains(j as usize),
{
    let mut idx: Vec<usize> = Vec::new();
    let mut i: usize = 0;
    while i < specs.len()
        invariant
            i <= specs@.len(),
            forall|k: int|
                0 <= k < idx@.len() ==> (#[trigger] idx@[k]) < i
                    && protocol_table().dom().contains(specs@[idx@[k] as int]),
            forall|k: int, l: int| 0 <= k < l < idx@.len() ==> idx@[k] < idx@[l],
            forall|j: int|
                0 <= j < i && protocol_table().dom().contains(#[trigger] specs@[j])
                    ==> idx@.contains(j as usize),
        decreases specs@.len() - i,
    {
        if is_supported(&specs[i]) {
            let ghost before = idx@;
            idx.push(i);
            proof {
                assert forall|j: int|
                    0 <= j < i + 1 && protocol_table().dom().contains(#[trigger] specs@[j])
                    implies idx@.contains(j as usize) by {
                    if j < i {
                        let k = choose|k: int| 0 <= k < before.len() && before[k] == j as usize;
                        assert(idx@[k] == j as usize);
                    } else {
                        assert(idx@[before.len() as int] == j as usize);
                    }
                }
            }
        } else {
            proof {
                assert forall|j: int|
                    0 <= j < i + 1 && protocol_table().dom().contains(#[trigger] specs@[j])
                    implies idx@.contains(j as usize) by {
                    assert(j < i);
                }
            }
        }
        i = i + 1;
    }
    idx
}

/// A device is supported exactly when a protocol is found for it.
pub proof fn lemma_supported_iff_matched(dev: DevSpec)
    ensures
        protocol_table().dom().contains(dev) <==> lookup_protocol(dev) is Some,
        lookup_protocol(dev) matches Some(p) ==> p == KeyboardProtocol::Weisheng,
{
}

} // verus!
