use led_hub::descriptor::{Configuration, Direction, Endpoint, Interface};
use led_hub::resolver::{
    resolve, DEFAULT_INTERFACE, DEFAULT_READ_ADDRESS, DEFAULT_WRITE_ADDRESS,
};

fn inbound(address: u8) -> Endpoint {
    Endpoint { address, direction: Direction::In }
}

fn outbound(address: u8) -> Endpoint {
    Endpoint { address, direction: Direction::Out }
}

#[test]
fn single_interface_with_one_endpoint_each_way() {
    let configuration = Configuration {
        interfaces: vec![Interface { number: 0, endpoints: vec![inbound(0x81), outbound(0x01)] }],
    };
    assert_eq!(resolve(&configuration), (0, 0x81, 0x01));
}

#[test]
fn single_interface_keeps_its_own_number() {
    let configuration = Configuration {
        interfaces: vec![Interface { number: 5, endpoints: vec![outbound(0x01), inbound(0x81)] }],
    };
    assert_eq!(resolve(&configuration), (5, 0x81, 0x01));
}

#[test]
fn no_interfaces_resolve_to_the_defaults() {
    let configuration = Configuration { interfaces: vec![] };
    assert_eq!(resolve(&configuration), (0x00, 0x81, 0x01));
}

#[test]
fn defaults_have_their_documented_values() {
    assert_eq!(DEFAULT_INTERFACE, 0x00);
    assert_eq!(DEFAULT_READ_ADDRESS, 0x81);
    assert_eq!(DEFAULT_WRITE_ADDRESS, 0x01);
}

#[test]
fn interface_without_endpoints_keeps_the_default_addresses() {
    let configuration =
        Configuration { interfaces: vec![Interface { number: 7, endpoints: vec![] }] };
    assert_eq!(resolve(&configuration), (7, 0x81, 0x01));
}

#[test]
fn only_inbound_endpoints_keep_the_default_write_address() {
    let configuration = Configuration {
        interfaces: vec![Interface { number: 1, endpoints: vec![inbound(0x82), inbound(0x83)] }],
    };
    assert_eq!(resolve(&configuration), (1, 0x83, 0x01));
}

#[test]
fn only_outbound_endpoints_keep_the_default_read_address() {
    let configuration = Configuration {
        interfaces: vec![Interface { number: 1, endpoints: vec![outbound(0x02)] }],
    };
    assert_eq!(resolve(&configuration), (1, 0x81, 0x02));
}

#[test]
fn last_endpoint_of_each_direction_wins() {
    let configuration = Configuration {
        interfaces: vec![Interface {
            number: 2,
            endpoints: vec![
                inbound(0x81),
                outbound(0x01),
                inbound(0x84),
                outbound(0x03),
                outbound(0x05),
            ],
        }],
    };
    assert_eq!(resolve(&configuration), (2, 0x84, 0x05));
}

#[test]
fn last_interface_wins_and_addresses_carry_over() {
    let configuration = Configuration {
        interfaces: vec![
            Interface { number: 0, endpoints: vec![inbound(0x81), outbound(0x01)] },
            Interface { number: 1, endpoints: vec![inbound(0x82)] },
            Interface { number: 9, endpoints: vec![] },
        ],
    };
    assert_eq!(resolve(&configuration), (9, 0x82, 0x01));
}

#[test]
fn later_interface_replaces_both_addresses() {
    let configuration = Configuration {
        interfaces: vec![
            Interface { number: 3, endpoints: vec![inbound(0x81), outbound(0x01)] },
            Interface { number: 4, endpoints: vec![outbound(0x06), inbound(0x86)] },
        ],
    };
    assert_eq!(resolve(&configuration), (4, 0x86, 0x06));
}

#[test]
fn resolution_does_not_touch_the_configuration() {
    let configuration = Configuration {
        interfaces: vec![Interface { number: 0, endpoints: vec![inbound(0x81), outbound(0x01)] }],
    };
    let before = resolve(&configuration);
    let after = resolve(&configuration);
    assert_eq!(before, after);
    assert_eq!(configuration.interfaces.len(), 1);
    assert_eq!(configuration.interfaces[0].endpoints, vec![inbound(0x81), outbound(0x01)]);
}
