use vstd::prelude::*;

use crate::error::ProtoError;
use crate::protocol::{self, DevSpec, KeyboardProtocol, lookup_protocol, protocol_table};

verus! {

/// Whether the device's interface has a known protocol.
pub fn is_supported(dev: &DevSpec) -> (supported: bool)
    ensures
        supported == protocol_table().dom().contains(*dev),
{
    protocol::is_supported(dev)
}

/// An opened keyboard: its device handle and the protocol it is driven with.
pub struct Keyboard<D> {
    dev: D,
    protocol: KeyboardProtocol,
}

impl<D> Keyboard<D> {
    /// The protocol the keyboard is driven with.
    pub closed spec fn spec_protocol(&self) -> KeyboardProtocol {
        self.protocol
    }

    /// The device handle of the keyboard.
    pub closed spec fn spec_device(&self) -> D {
        self.dev
    }

    /// Wraps a device whose interface is `info`; fails with `NotSupported`
    /// when no protocol is known for it.
    pub fn new(dev: D, info: DevSpec) -> (res: Result<Keyboard<D>, ProtoError>)
        ensures
            match lookup_protocol(info) {
                Some(p) => (res matches Ok(k) && k.spec_protocol() == p && k.spec_device() == dev),
                None => res matches Err(e) && e == ProtoError::NotSupported(info),
            },
    {
        match protocol::match_protocol(&info) {
            Some(protocol) => Ok(Keyboard { dev, protocol }),
            None => Err(ProtoError::NotSupported(info)),
        }
    }

    /// The protocol the keyboard is driven with.
    pub fn protocol(&self) -> (p: KeyboardProtocol)
        ensures
            p == self.spec_protocol(),
    {
        self.protocol
    }

    /// The device handle of the keyboard.
    pub fn device(&self) -> (d: &D)
        ensures
            *d == self.spec_device(),
    {
        &self.dev
    }
}

} // verus!
