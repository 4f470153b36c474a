//! Local ports for SPICE and RDP: where the search for a free one starts and how it advances.
use vstd::prelude::*;

verus! {

/// The first port tried for a VM's SPICE display.
pub const SPICE_PORT_START: u16 = 5900;

/// The first port tried for a VM's forwarded RDP service.
pub const RDP_PORT_START: u16 = 3389;

/// The port tried after `port` could not be bound: the next one, saturating at the
/// largest port.
pub fn next_port_to_try(port: u16) -> (r: u16)
    ensures
        r == if port == u16::MAX {
            port
        } else {
            (port + 1) as u16
        },
        r >= port,
{
    port.saturating_add(1)
}

} // verus!
