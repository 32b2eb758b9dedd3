//! Finding the hub among the attached devices.

use vstd::prelude::*;
use crate::error::HubError;

verus! {

/// Vendor identifier of the hub.
pub const VENDOR_ID: u16 = 0x1B1C;

/// Product identifier of the hub.
pub const PRODUCT_ID: u16 = 0x0C0B;

/// What the USB stack tells about an attached device.
#[derive(Clone, Copy, Debug, PartialEq, Eq, Structural)]
pub struct DeviceIdentity {
    pub bus: u8,
    pub address: u8,
    pub vendor_id: u16,
    pub product_id: u16,
}

/// Whether the device is a hub: both identifiers are the hub's.
pub open spec fn is_hub(device: DeviceIdentity) -> bool {
    device.vendor_id == VENDOR_ID && device.product_id == PRODUCT_ID
}

/// The positions of the hubs among the devices, in increasing order.
pub open spec fn hub_positions(devices: Seq<DeviceIdentity>) -> Seq<usize>
    decreases devices.len(),
{
    if devices.len() == 0 {
        Seq::empty()
    } else if is_hub(devices.last()) {
        hub_positions(devices.drop_last()).push((devices.len() - 1) as usize)
    } else {
        hub_positions(devices.drop_last())
    }
}

impl DeviceIdentity {
    /// Whether the device is a hub.
    pub fn matches_hub(&self) -> (yes: bool)
        ensures
            yes == is_hub(*self),
    {
        self.vendor_id == VENDOR_ID && self.product_id == PRODUCT_ID
    }
}

/// Finds the hubs among the attached devices: the positions of all of them, in
/// increasing order, or `DeviceNotFound` where there is none.
pub fn find_hubs(devices: &Vec<DeviceIdentity>) -> (found: Result<Vec<usize>, HubError>)
    ensures
        match found {
            Ok(positions) => positions@ == hub_positions(devices@) && positions@.len() > 0,
            Err(error) => error == HubError::DeviceNotFound && hub_positions(devices@).len() == 0,
        },
{
    let mut positions: Vec<usize> = Vec::new();
    let mut i: usize = 0;
    while i < devices.len()
        invariant
            i <= devices.len(),
            positions@ == hub_positions(devices@.take(i as int)),
        decreases devices.len() - i,
    {
        proof {
            let next = devices@.take(i + 1);
            assert(next.drop_last() =~= devices@.take(i as int));
            assert(next.last() == devices@[i as int]);
        }
        if devices[i].matches_hub() {
            positions.push(i);
        }
        i += 1;
    }
    proof {
        assert(devices@.take(devices@.len() as int) =~= devices@);
    }
    if positions.len() == 0 {
        Err(HubError::DeviceNotFound)
    } else {
        Ok(positions)
    }
}

/// What `hub_positions` lists: positions of hubs only, every hub's position,
/// and each position once, in increasing order.
pub proof fn lemma_hub_positions(devices: Seq<DeviceIdentity>)
    requires
        devices.len() <= usize::MAX,
    ensures
        forall|k: int|
            0 <= k < hub_positions(devices).len() ==> 0 <= #[trigger] hub_positions(devices)[k]
                < devices.len() && is_hub(devices[hub_positions(devices)[k] as int]),
        forall|i: int|
            0 <= i < devices.len() && is_hub(#[trigger] devices[i]) ==> hub_positions(
                devices,
            ).contains(i as usize),
        forall|k: int, l: int|
            0 <= k < l < hub_positions(devices).len() ==> hub_positions(devices)[k]
                < hub_positions(devices)[l],
    decreases devices.len(),
{
    if devices.len() > 0 {
        let shorter = devices.drop_last();
        let rest = hub_positions(shorter);
        lemma_hub_positions(shorter);
        let all = hub_positions(devices);
        assert forall|i: int| 0 <= i < devices.len() && is_hub(#[trigger] devices[i]) implies all.contains(
            i as usize,
        ) by {
            if i < shorter.len() {
                assert(is_hub(shorter[i]));
                let k = choose|k: int| 0 <= k < rest.len() && rest[k] == i as usize;
                assert(all[k] == i as usize);
            } else {
                assert(all[all.len() - 1] == i as usize);
            }
        }
        assert forall|k: int| 0 <= k < all.len() implies 0 <= #[trigger] all[k] < devices.len()
            && is_hub(devices[all[k] as int]) by {
            if k < rest.len() {
                assert(all[k] == rest[k]);
                assert(is_hub(shorter[rest[k] as int]));
            }
        }
        assert forall|k: int, l: int| 0 <= k < l < all.len() implies all[k] < all[l] by {
            if l < rest.len() {
                assert(all[k] == rest[k] && all[l] == rest[l]);
            } else {
                assert(all[k] == rest[k]);
            }
        }
    }
}

} // verus!
