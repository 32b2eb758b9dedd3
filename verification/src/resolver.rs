//! Endpoint resolution: which interface and which endpoint addresses a session
//! uses on a device.
//!
//! The rule is "last seen wins". Walking the interfaces in order and the
//! endpoints of each in order, every inbound endpoint replaces the read
//! address, every other endpoint replaces the write address, and the interface
//! visited last is the one selected. A configuration that offers nothing keeps
//! the defaults.

use vstd::prelude::*;
use crate::descriptor::{Configuration, Direction, Endpoint, InterfaceView};

verus! {

/// Interface number used when the configuration has no interface.
pub const DEFAULT_INTERFACE: u8 = 0x00;

/// Read address used when the configuration has no inbound endpoint.
pub const DEFAULT_READ_ADDRESS: u8 = 0x81;

/// Write address used when the configuration has no outbound endpoint.
pub const DEFAULT_WRITE_ADDRESS: u8 = 0x01;

/// All endpoints of the interfaces, in the order in which a walk meets them.
pub open spec fn endpoints_in_order(interfaces: Seq<InterfaceView>) -> Seq<Endpoint>
    decreases interfaces.len(),
{
    if interfaces.len() == 0 {
        Seq::empty()
    } else {
        endpoints_in_order(interfaces.drop_last()) + interfaces.last().endpoints
    }
}

/// The address of the last endpoint of the given direction, or `default` where
/// there is none.
pub open spec fn last_address(endpoints: Seq<Endpoint>, direction: Direction, default: u8) -> u8
    decreases endpoints.len(),
{
    if endpoints.len() == 0 {
        default
    } else if endpoints.last().direction == direction {
        endpoints.last().address
    } else {
        last_address(endpoints.drop_last(), direction, default)
    }
}

/// The number of the last interface, or the default where there is none.
pub open spec fn selected_interface(interfaces: Seq<InterfaceView>) -> u8 {
    if interfaces.len() == 0 {
        DEFAULT_INTERFACE
    } else {
        interfaces.last().number
    }
}

/// Interface number, read address and write address chosen for a
/// configuration.
pub open spec fn resolved(interfaces: Seq<InterfaceView>) -> (u8, u8, u8) {
    (
        selected_interface(interfaces),
        last_address(endpoints_in_order(interfaces), Direction::In, DEFAULT_READ_ADDRESS),
        last_address(endpoints_in_order(interfaces), Direction::Out, DEFAULT_WRITE_ADDRESS),
    )
}

/// Appending one endpoint either replaces the address or leaves it alone.
proof fn lemma_last_address_push(
    endpoints: Seq<Endpoint>,
    endpoint: Endpoint,
    direction: Direction,
    default: u8,
)
    ensures
        last_address(endpoints.push(endpoint), direction, default) == if endpoint.direction
            == direction {
            endpoint.address
        } else {
            last_address(endpoints, direction, default)
        },
{
    assert(endpoints.push(endpoint).drop_last() =~= endpoints);
}

/// A configuration without interfaces resolves to the defaults.
pub proof fn lemma_no_interfaces_resolve_to_defaults()
    ensures
        resolved(Seq::<InterfaceView>::empty()) == (0x00u8, 0x81u8, 0x01u8),
{
}

/// A configuration whose only interface has one inbound and one outbound
/// endpoint resolves to that interface and those two addresses, whichever of
/// the two endpoints the device lists first.
pub proof fn lemma_single_interface_resolves_to_its_endpoints(
    number: u8,
    inbound: u8,
    outbound: u8,
)
    ensures
        resolved(
            seq![
                InterfaceView {
                    number,
                    endpoints: seq![
                        Endpoint { address: inbound, direction: Direction::In },
                        Endpoint { address: outbound, direction: Direction::Out },
                    ],
                },
            ],
        ) == (number, inbound, outbound),
        resolved(
            seq![
                InterfaceView {
                    number,
                    endpoints: seq![
                        Endpoint { address: outbound, direction: Direction::Out },
                        Endpoint { address: inbound, direction: Direction::In },
                    ],
                },
            ],
        ) == (number, inbound, outbound),
{
    let in_first = seq![
        Endpoint { address: inbound, direction: Direction::In },
        Endpoint { address: outbound, direction: Direction::Out },
    ];
    let out_first = seq![
        Endpoint { address: outbound, direction: Direction::Out },
        Endpoint { address: inbound, direction: Direction::In },
    ];
    lemma_endpoints_of_single_interface(InterfaceView { number, endpoints: in_first });
    lemma_endpoints_of_single_interface(InterfaceView { number, endpoints: out_first });
    lemma_last_address_is_last_of_direction(in_first, Direction::In, DEFAULT_READ_ADDRESS, 0);
    lemma_last_address_is_last_of_direction(in_first, Direction::Out, DEFAULT_WRITE_ADDRESS, 1);
    lemma_last_address_is_last_of_direction(out_first, Direction::In, DEFAULT_READ_ADDRESS, 1);
    lemma_last_address_is_last_of_direction(out_first, Direction::Out, DEFAULT_WRITE_ADDRESS, 0);
}

/// Last seen wins: the address chosen for a direction is that of the endpoint
/// of this direction after which no other of this direction follows.
pub proof fn lemma_last_address_is_last_of_direction(
    endpoints: Seq<Endpoint>,
    direction: Direction,
    default: u8,
    i: int,
)
    requires
        0 <= i < endpoints.len(),
        endpoints[i].direction == direction,
        forall|j: int| i < j < endpoints.len() ==> endpoints[j].direction != direction,
    ensures
        last_address(endpoints, direction, default) == endpoints[i].address,
    decreases endpoints.len(),
{
    if i + 1 < endpoints.len() {
        lemma_last_address_is_last_of_direction(endpoints.drop_last(), direction, default, i);
    }
}

/// Where no endpoint has the direction, the default address stays.
pub proof fn lemma_last_address_without_direction(
    endpoints: Seq<Endpoint>,
    direction: Direction,
    default: u8,
)
    requires
        forall|j: int| 0 <= j < endpoints.len() ==> endpoints[j].direction != direction,
    ensures
        last_address(endpoints, direction, default) == default,
    decreases endpoints.len(),
{
    if endpoints.len() > 0 {
        lemma_last_address_without_direction(endpoints.drop_last(), direction, default);
    }
}

/// The endpoints of a configuration with one interface are those of the
/// interface.
proof fn lemma_endpoints_of_single_interface(interface: InterfaceView)
    ensures
        endpoints_in_order(seq![interface]) == interface.endpoints,
{
    let interfaces = seq![interface];
    assert(interfaces.drop_last() =~= Seq::<InterfaceView>::empty());
    assert(endpoints_in_order(interfaces.drop_last()) =~= Seq::<Endpoint>::empty());
    assert(endpoints_in_order(interfaces) =~= interface.endpoints);
}

/// Chooses the interface number, the read address and the write address for a
/// configuration, in this order.
pub fn resolve(configuration: &Configuration) -> (selection: (u8, u8, u8))
    ensures
        selection == resolved(configuration@),
{
    let mut interface: u8 = DEFAULT_INTERFACE;
    let mut read_address: u8 = DEFAULT_READ_ADDRESS;
    let mut write_address: u8 = DEFAULT_WRITE_ADDRESS;
    let mut i: usize = 0;
    while i < configuration.interfaces.len()
        invariant
            i <= configuration.interfaces.len(),
            interface == selected_interface(configuration@.take(i as int)),
            read_address == last_address(
                endpoints_in_order(configuration@.take(i as int)),
                Direction::In,
                DEFAULT_READ_ADDRESS,
            ),
            write_address == last_address(
                endpoints_in_order(configuration@.take(i as int)),
                Direction::Out,
                DEFAULT_WRITE_ADDRESS,
            ),
        decreases configuration.interfaces.len() - i,
    {
        let current = &configuration.interfaces[i];
        let ghost before = endpoints_in_order(configuration@.take(i as int));
        interface = current.number;
        let mut j: usize = 0;
        while j < current.endpoints.len()
            invariant
                j <= current.endpoints.len(),
                read_address == last_address(
                    before + current.endpoints@.take(j as int),
                    Direction::In,
                    DEFAULT_READ_ADDRESS,
                ),
                write_address == last_address(
                    before + current.endpoints@.take(j as int),
                    Direction::Out,
                    DEFAULT_WRITE_ADDRESS,
                ),
            decreases current.endpoints.len() - j,
        {
            let endpoint = current.endpoints[j];
            proof {
                let seen = before + current.endpoints@.take(j as int);
                assert(before + current.endpoints@.take(j + 1) =~= seen.push(endpoint));
                lemma_last_address_push(seen, endpoint, Direction::In, DEFAULT_READ_ADDRESS);
                lemma_last_address_push(seen, endpoint, Direction::Out, DEFAULT_WRITE_ADDRESS);
            }
            match endpoint.direction {
                Direction::In => {
                    read_address = endpoint.address;
                },
                Direction::Out => {
                    write_address = endpoint.address;
                },
            }
            j += 1;
        }
        proof {
            let next = configuration@.take(i + 1);
            assert(next.drop_last() =~= configuration@.take(i as int));
            assert(next.last() == current@);
            assert(current.endpoints@.take(current.endpoints@.len() as int) =~= current.endpoints@);
        }
        i += 1;
    }
    proof {
        assert(configuration@.take(configuration@.len() as int) =~= configuration@);
    }
    (interface, read_address, write_address)
}

} // verus!
