use led_hub::device::{find_hubs, DeviceIdentity, PRODUCT_ID, VENDOR_ID};
use led_hub::error::{classify_claim_fault, classify_transfer_fault, HubError, TransportFault};

fn device(vendor_id: u16, product_id: u16) -> DeviceIdentity {
    DeviceIdentity { bus: 1, address: 4, vendor_id, product_id }
}

const FAULTS: [TransportFault; 13] = [
    TransportFault::Io,
    TransportFault::InvalidParam,
    TransportFault::Access,
    TransportFault::NoDevice,
    TransportFault::NotFound,
    TransportFault::Busy,
    TransportFault::Timeout,
    TransportFault::Overflow,
    TransportFault::Pipe,
    TransportFault::Interrupted,
    TransportFault::NoMem,
    TransportFault::NotSupported,
    TransportFault::Other,
];

#[test]
fn hub_identifiers_are_fixed() {
    assert_eq!(VENDOR_ID, 0x1B1C);
    assert_eq!(PRODUCT_ID, 0x0C0B);
}

#[test]
fn hub_needs_both_identifiers() {
    assert!(device(0x1B1C, 0x0C0B).matches_hub());
    assert!(!device(0x1B1C, 0x0C0A).matches_hub());
    assert!(!device(0x1B1D, 0x0C0B).matches_hub());
    assert!(!device(0x0C0B, 0x1B1C).matches_hub());
    assert!(!device(0, 0).matches_hub());
}

#[test]
fn no_devices_means_device_not_found() {
    assert_eq!(find_hubs(&vec![]), Err(HubError::DeviceNotFound));
}

#[test]
fn no_matching_device_means_device_not_found() {
    let devices = vec![device(0x046D, 0xC52B), device(0x1B1C, 0x1B2D), device(0x8087, 0x0C0B)];
    assert_eq!(find_hubs(&devices), Err(HubError::DeviceNotFound));
}

#[test]
fn the_hub_is_found_at_its_position() {
    let devices = vec![device(0x046D, 0xC52B), device(0x1B1C, 0x0C0B), device(0x8087, 0x0024)];
    assert_eq!(find_hubs(&devices), Ok(vec![1]));
}

#[test]
fn every_hub_is_found_in_order() {
    let devices = vec![
        device(0x1B1C, 0x0C0B),
        device(0x046D, 0xC52B),
        device(0x1B1C, 0x0C0B),
        device(0x1B1C, 0x0C0B),
        device(0x1D6B, 0x0002),
    ];
    assert_eq!(find_hubs(&devices), Ok(vec![0, 2, 3]));
}

#[test]
fn bus_and_address_do_not_matter_for_the_match() {
    let devices = vec![
        DeviceIdentity { bus: 0, address: 0, vendor_id: 0x1B1C, product_id: 0x0C0B },
        DeviceIdentity { bus: 255, address: 255, vendor_id: 0x1B1C, product_id: 0x0C0B },
    ];
    assert_eq!(find_hubs(&devices), Ok(vec![0, 1]));
}

#[test]
fn transfer_faults_are_timeouts_or_transfer_errors() {
    for fault in FAULTS.iter() {
        let expected = if *fault == TransportFault::Timeout {
            HubError::TransferTimeout
        } else {
            HubError::TransferError
        };
        assert_eq!(classify_transfer_fault(*fault), expected);
    }
}

#[test]
fn claim_faults_single_out_the_busy_interface() {
    for fault in FAULTS.iter() {
        let expected = if *fault == TransportFault::Busy {
            HubError::InterfaceUnavailable
        } else if *fault == TransportFault::Timeout {
            HubError::TransferTimeout
        } else {
            HubError::TransferError
        };
        assert_eq!(classify_claim_fault(*fault), expected);
    }
}
