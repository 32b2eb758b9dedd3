//! The command encoder: the exact bytes of the three messages the hub
//! understands.

use vstd::prelude::*;

verus! {

/// Lighting mode: fade between the two colour stops.
pub const MODE_FADE: u8 = 0x01;

/// Lighting mode: show a static colour.
pub const MODE_STATIC: u8 = 0x04;

/// Lighting mode: run through a sequence.
pub const MODE_SEQUENCE: u8 = 0x06;

/// Lighting mode: blink.
pub const MODE_BLINK: u8 = 0x08;

/// The bytes of the initialisation message.
pub open spec fn init_bytes() -> Seq<u8> {
    seq![0x37u8, 0x00u8, 0x00u8]
}

/// The bytes of the message that sets the colours of `count` LED groups
/// starting at group `offset`. The speed is fixed at the slowest setting
/// (`0x02`) and the sequence at non-random (`0x01`); the eight bytes at the
/// end are timing constants of the device.
pub open spec fn color_group_bytes(
    offset: u8,
    count: u8,
    mode: u8,
    r1: u8,
    g1: u8,
    b1: u8,
    r2: u8,
    g2: u8,
    b2: u8,
) -> Seq<u8> {
    seq![
        0x35u8, 0x00u8, offset, count, mode, 0x02u8, 0x01u8, 0x00u8,
        0xFFu8, r1, g1, b1, r2, g2, b2, 0xFFu8,
        0x00u8, 0x00u8, 0x09u8, 0xC4u8, 0x0Du8, 0xACu8, 0x11u8, 0x94u8,
    ]
}

/// The bytes of the message that commits the colours staged before it.
pub open spec fn final_bytes() -> Seq<u8> {
    seq![0x33u8, 0xFFu8]
}

/// The fields a colour-group message carries, read from their positions:
/// offset, count, mode, then the two colour stops.
pub open spec fn color_group_fields(bytes: Seq<u8>) -> (u8, u8, u8, u8, u8, u8, u8, u8, u8) {
    (
        bytes[2],
        bytes[3],
        bytes[4],
        bytes[9],
        bytes[10],
        bytes[11],
        bytes[12],
        bytes[13],
        bytes[14],
    )
}

/// Whether the bytes are a colour-group message: the encoding of the fields
/// they carry.
pub open spec fn is_color_group(bytes: Seq<u8>) -> bool {
    bytes == color_group_bytes(
        bytes[2],
        bytes[3],
        bytes[4],
        bytes[9],
        bytes[10],
        bytes[11],
        bytes[12],
        bytes[13],
        bytes[14],
    )
}

/// Whether the bytes are one of the three messages of the protocol.
pub open spec fn is_message(bytes: Seq<u8>) -> bool {
    bytes == init_bytes() || is_color_group(bytes) || bytes == final_bytes()
}

/// One protocol message, ready to be written to the hub. A packet cannot be
/// changed once it is made, and is nothing beyond its bytes.
#[derive(Debug, PartialEq, Eq)]
pub struct CommandPacket {
    bytes: Vec<u8>,
}

impl View for CommandPacket {
    type V = Seq<u8>;

    closed spec fn view(&self) -> Seq<u8> {
        self.bytes@
    }
}

impl CommandPacket {
    /// Every packet holds a message of the protocol.
    #[verifier::type_invariant]
    pub open spec fn holds_a_message(self) -> bool {
        is_message(self@)
    }

    /// The bytes of the packet, which are always a message of the protocol.
    pub fn as_slice(&self) -> (bytes: &[u8])
        ensures
            bytes@ == self@,
            is_message(bytes@),
    {
        proof {
            use_type_invariant(self);
        }
        self.bytes.as_slice()
    }
}

/// The initialisation message.
pub fn init_packet() -> (packet: CommandPacket)
    ensures
        packet@ == init_bytes(),
{
    let bytes: Vec<u8> = vec![0x37, 0x00, 0x00];
    assert(bytes@ =~= init_bytes());
    CommandPacket { bytes }
}

/// The message that sets the colours of `count` LED groups starting at group
/// `offset`, with the lighting mode and the two colour stops given. No value
/// is rejected: what the hub does with a group it does not have is up to the
/// hub.
pub fn color_group_packet(
    offset: u8,
    count: u8,
    mode: u8,
    r1: u8,
    g1: u8,
    b1: u8,
    r2: u8,
    g2: u8,
    b2: u8,
) -> (packet: CommandPacket)
    ensures
        packet@ == color_group_bytes(offset, count, mode, r1, g1, b1, r2, g2, b2),
{
    let speed: u8 = 0x02;
    let sequence: u8 = 0x01;
    let bytes: Vec<u8> = vec![
        0x35, 0x00, offset, count, mode, speed, sequence, 0x00,
        0xFF, r1, g1, b1, r2, g2, b2, 0xFF,
        0x00, 0x00, 0x09, 0xC4, 0x0D, 0xAC, 0x11, 0x94,
    ];
    assert(bytes@ =~= color_group_bytes(offset, count, mode, r1, g1, b1, r2, g2, b2));
    CommandPacket { bytes }
}

/// The message that commits the colours staged before it.
pub fn final_packet() -> (packet: CommandPacket)
    ensures
        packet@ == final_bytes(),
{
    let bytes: Vec<u8> = vec![0x33, 0xFF];
    assert(bytes@ =~= final_bytes());
    CommandPacket { bytes }
}

/// The layout of a colour-group message: 24 bytes, the protocol constants at
/// positions 0, 1, 8 and 15, and every argument at its own position.
pub proof fn lemma_color_group_layout(
    offset: u8,
    count: u8,
    mode: u8,
    r1: u8,
    g1: u8,
    b1: u8,
    r2: u8,
    g2: u8,
    b2: u8,
)
    ensures
        ({
            let bytes = color_group_bytes(offset, count, mode, r1, g1, b1, r2, g2, b2);
            &&& bytes.len() == 24
            &&& bytes[0] == 0x35
            &&& bytes[1] == 0x00
            &&& bytes[4] == mode
            &&& bytes[8] == 0xFF
            &&& bytes[15] == 0xFF
            &&& bytes[2] == offset
            &&& bytes[3] == count
            &&& bytes[9] == r1
            &&& bytes[10] == g1
            &&& bytes[11] == b1
            &&& bytes[12] == r2
            &&& bytes[13] == g2
            &&& bytes[14] == b2
        }),
{
}

/// Encoding and reading back is the identity: the fields read from the
/// encoding of nine values are these nine values, and the encoding is a
/// colour-group message.
pub proof fn lemma_color_group_round_trip(
    offset: u8,
    count: u8,
    mode: u8,
    r1: u8,
    g1: u8,
    b1: u8,
    r2: u8,
    g2: u8,
    b2: u8,
)
    ensures
        color_group_fields(color_group_bytes(offset, count, mode, r1, g1, b1, r2, g2, b2)) == (
            offset,
            count,
            mode,
            r1,
            g1,
            b1,
            r2,
            g2,
            b2,
        ),
        is_color_group(color_group_bytes(offset, count, mode, r1, g1, b1, r2, g2, b2)),
{
}

/// The three messages never coincide: they differ in length.
pub proof fn lemma_messages_are_distinct(bytes: Seq<u8>)
    ensures
        !(bytes == init_bytes() && is_color_group(bytes)),
        !(bytes == init_bytes() && bytes == final_bytes()),
        !(is_color_group(bytes) && bytes == final_bytes()),
{
    if is_color_group(bytes) {
        lemma_color_group_layout(
            bytes[2],
            bytes[3],
            bytes[4],
            bytes[9],
            bytes[10],
            bytes[11],
            bytes[12],
            bytes[13],
            bytes[14],
        );
    }
    assert(init_bytes().len() == 3);
    assert(final_bytes().len() == 2);
}

} // verus!
