//! Open Sound Control: the avatar parameter that VRChat sends, and the chatbox
//! messages that go back to it.

use crate::text::{same_text, truncate, truncated};
use vstd::prelude::*;
use vstd::utf8::*;

verus! {

/// The address of the avatar parameter that turns listening on and off.
pub const PERIHELION_ADDRESS: &'static str = "/avatar/parameters/perihelion";

/// Where chat text goes.
pub const CHATBOX_INPUT_ADDRESS: &'static str = "/chatbox/input";

/// Where the typing indicator goes.
pub const CHATBOX_TYPING_ADDRESS: &'static str = "/chatbox/typing";

/// The most characters that the chatbox takes.
pub const CHATBOX_LIMIT: usize = 140;

/// The most bytes that are read from one datagram.
pub const MTU: usize = 1536;

/// A packet as `rosc` decodes it.
#[verifier::external_type_specification]
#[verifier::external_body]
pub struct ExOscPacket(rosc::OscPacket);

/// One argument of a message. A float is held as its IEEE 754 bits.
#[derive(Debug)]
pub enum OscArg {
    Int(i32),
    Float(u32),
    Text(String),
    Bool(bool),
    /// An argument of any other type; its value is not kept.
    Other,
}

/// What an [`OscArg`] holds.
pub enum ArgModel {
    Int(i32),
    Float(u32),
    Text(Seq<char>),
    Bool(bool),
    Other,
}

/// A message, or a bundle of packets.
#[derive(Debug)]
pub enum Packet {
    Message { addr: String, args: Vec<OscArg> },
    Bundle { content: Vec<Packet> },
}

/// What a [`Packet`] holds.
pub enum PacketModel {
    Message { addr: Seq<char>, args: Seq<ArgModel> },
    Bundle { content: Seq<PacketModel> },
}

impl OscArg {
    /// What the argument holds.
    pub open spec fn model(&self) -> ArgModel {
        match *self {
            OscArg::Int(v) => ArgModel::Int(v),
            OscArg::Float(bits) => ArgModel::Float(bits),
            OscArg::Text(text) => ArgModel::Text(text@),
            OscArg::Bool(v) => ArgModel::Bool(v),
            OscArg::Other => ArgModel::Other,
        }
    }
}

/// What the arguments hold, in order.
pub open spec fn arg_models(args: Seq<OscArg>) -> Seq<ArgModel> {
    Seq::new(args.len(), |i: int| args[i].model())
}

impl Packet {
    /// What the packet holds.
    pub open spec fn model(&self) -> PacketModel
        decreases self,
    {
        match self {
            Packet::Message { addr, args } => PacketModel::Message {
                addr: addr@,
                args: arg_models(args@),
            },
            Packet::Bundle { content } => PacketModel::Bundle {
                content: Seq::new(
                    content@.len(),
                    |i: int|
                        if 0 <= i < content@.len() {
                            content@[i].model()
                        } else {
                            arbitrary()
                        },
                ),
            },
        }
    }
}

/// A single-precision float with these bits is greater than one half. It is
/// so for positive infinity and for no NaN.
pub open spec fn float_above_half(bits: u32) -> bool {
    0x3f00_0000 < bits <= 0x7f80_0000
}

/// The arguments ask for listening: one argument, and that is true, a positive
/// integer or a float above one half.
pub open spec fn args_turn_on(args: Seq<ArgModel>) -> bool {
    args.len() == 1 && match args[0] {
        ArgModel::Float(bits) => float_above_half(bits),
        ArgModel::Bool(v) => v,
        ArgModel::Int(v) => v > 0,
        _ => false,
    }
}

/// What a packet asks for: the first message to the avatar parameter decides,
/// and bundles are searched in order, depth first.
pub open spec fn packet_value(packet: PacketModel) -> Option<bool>
    decreases packet,
{
    match packet {
        PacketModel::Message { addr, args } => if addr == PERIHELION_ADDRESS@ {
            Some(args_turn_on(args))
        } else {
            None
        },
        PacketModel::Bundle { content } => first_value(content),
    }
}

/// What the first of these packets that asks for anything asks for.
pub open spec fn first_value(content: Seq<PacketModel>) -> Option<bool>
    decreases content,
{
    if content.len() == 0 {
        None
    } else {
        match packet_value(content[0]) {
            Some(v) => Some(v),
            None => first_value(content.skip(1)),
        }
    }
}

/// Whether the bits are those of a float greater than one half.
fn above_half(bits: u32) -> (yes: bool)
    ensures
        yes == float_above_half(bits),
{
    0x3f00_0000 < bits && bits <= 0x7f80_0000
}

/// What the packet asks for, if it speaks to the avatar parameter at all.
pub fn extract_perihelion_value(packet: &Packet) -> (value: Option<bool>)
    ensures
        value == packet_value(packet.model()),
    decreases packet,
{
    match packet {
        Packet::Message { addr, args } => {
            if same_text(addr.as_str(), PERIHELION_ADDRESS) {
                if args.len() != 1 {
                    return Some(false);
                }
                assert(arg_models(args@)[0] == args@[0].model());
                match &args[0] {
                    OscArg::Float(bits) => Some(above_half(*bits)),
                    OscArg::Bool(v) => Some(*v),
                    OscArg::Int(v) => Some(*v > 0),
                    _ => Some(false),
                }
            } else {
                None
            }
        },
        Packet::Bundle { content } => {
            let ghost models = packet.model()->content;
            assert(models.skip(0) =~= models);
            let mut i: usize = 0;
            while i < content.len()
                invariant
                    packet.model() == (PacketModel::Bundle { content: models }),
                    packet matches Packet::Bundle { content: c } && c == content,
                    i <= content.len(),
                    models.len() == content.len(),
                    forall|j: int| 0 <= j < content.len() ==> models[j] == content@[j].model(),
                    first_value(models) == first_value(models.skip(i as int)),
                decreases content.len() - i,
            {
                assert(models.skip(i as int)[0] == models[i as int]);
                assert(models.skip(i as int).skip(1) =~= models.skip(i + 1));
                if let Some(v) = extract_perihelion_value(&content[i]) {
                    return Some(v);
                }
                i += 1;
            }
            None
        },
    }
}

/// What a packet of `rosc` holds: its address and arguments, or what each
/// packet of the bundle holds, in order. Time tags are left out.
pub uninterp spec fn held(packet: rosc::OscPacket) -> PacketModel;

/// What `rosc` reads from a datagram, or nothing where it reports an error.
pub uninterp spec fn decoded(datagram: Seq<u8>) -> Option<PacketModel>;

/// `bytes` with one to four zero bytes behind them, up to a multiple of four.
pub open spec fn padded(bytes: Seq<u8>) -> Seq<u8> {
    bytes + Seq::new((4 - bytes.len() % 4) as nat, |i: int| 0u8)
}

/// The four bytes of `n`, the most significant first.
pub open spec fn big_endian(n: u32) -> Seq<u8> {
    seq![(n >> 24) as u8, (n >> 16) as u8, (n >> 8) as u8, n as u8]
}

/// The type tag of an argument.
pub open spec fn type_tag(arg: ArgModel) -> u8 {
    match arg {
        ArgModel::Int(_) => 'i' as u8,
        ArgModel::Float(_) => 'f' as u8,
        ArgModel::Text(_) => 's' as u8,
        ArgModel::Bool(true) => 'T' as u8,
        ArgModel::Bool(false) => 'F' as u8,
        ArgModel::Other => 'N' as u8,
    }
}

/// The data of an argument. Booleans and nil have none beside their tag.
pub open spec fn arg_data(arg: ArgModel) -> Seq<u8> {
    match arg {
        ArgModel::Int(v) => big_endian(v as u32),
        ArgModel::Float(bits) => big_endian(bits),
        ArgModel::Text(text) => padded(encode_utf8(text)),
        _ => Seq::empty(),
    }
}

/// The data of the arguments, in order.
pub open spec fn args_data(args: Seq<ArgModel>) -> Seq<u8>
    decreases args.len(),
{
    if args.len() == 0 {
        Seq::empty()
    } else {
        args_data(args.drop_last()) + arg_data(args.last())
    }
}

/// The bytes of a message: the address, the type tags behind a comma, the data.
pub open spec fn message_bytes(addr: Seq<char>, args: Seq<ArgModel>) -> Seq<u8> {
    padded(encode_utf8(addr)) + padded(
        seq![',' as u8] + Seq::new(args.len(), |i: int| type_tag(args[i])),
    ) + args_data(args)
}

/// A single-precision float with these bits is a NaN.
pub open spec fn is_nan(bits: u32) -> bool {
    0x7f80_0000 < bits < 0x8000_0000 || 0xff80_0000 < bits
}

/// An argument that is read back as it was written: a text without NUL, and a
/// float that is a number.
pub open spec fn is_plain_arg(arg: ArgModel) -> bool {
    match arg {
        ArgModel::Text(text) => !text.contains('\0'),
        ArgModel::Float(bits) => !is_nan(bits),
        _ => true,
    }
}

/// A message that is read back as it was written: the address starts with a
/// slash and holds no NUL, and the arguments are plain.
pub open spec fn is_sendable(addr: Seq<char>, args: Seq<ArgModel>) -> bool {
    &&& addr.len() > 0
    &&& addr[0] == '/'
    &&& !addr.contains('\0')
    &&& forall|i: int| 0 <= i < args.len() ==> is_plain_arg(#[trigger] args[i])
}

/// One level of a packet of `rosc`.
enum Parts {
    Message { addr: String, args: Vec<OscArg> },
    Bundle { content: Vec<rosc::OscPacket> },
}

/// Takes a packet of `rosc` apart, one level deep. Of the arguments, integers,
/// floats, strings and booleans are kept; [`held`] is what the packet holds.
#[verifier::external_body]
fn parts(packet: rosc::OscPacket) -> (result: Parts)
    ensures
        match result {
            Parts::Message { addr, args } => held(packet) == (PacketModel::Message {
                addr: addr@,
                args: arg_models(args@),
            }),
            Parts::Bundle { content } => held(packet) == (PacketModel::Bundle {
                content: Seq::new(content@.len(), |i: int| held(content@[i])),
            }),
        },
{
    let arg = |arg| match arg {
        rosc::OscType::Int(v) => OscArg::Int(v),
        rosc::OscType::Float(v) => OscArg::Float(v.to_bits()),
        rosc::OscType::String(v) => OscArg::Text(v),
        rosc::OscType::Bool(v) => OscArg::Bool(v),
        _ => OscArg::Other,
    };
    match packet {
        rosc::OscPacket::Message(m) => {
            Parts::Message { addr: m.addr, args: m.args.into_iter().map(arg).collect() }
        },
        rosc::OscPacket::Bundle(b) => Parts::Bundle { content: b.content },
    }
}

/// `rosc::decoder::decode_udp` without the bytes that it leaves over. The
/// result is a function of the datagram, named [`decoded`]. A message that is
/// laid out as [`message_bytes`] says is read as that message. The decoder
/// recurses into bundles, so the datagram is held to [`MTU`] bytes.
#[verifier::external_body]
fn decode_udp(datagram: &[u8]) -> (packet: Option<rosc::OscPacket>)
    requires
        datagram@.len() <= MTU,
    ensures
        packet is Some <==> decoded(datagram@) is Some,
        packet is Some ==> decoded(datagram@) == Some(held(packet->0)),
        forall|addr: Seq<char>, args: Seq<ArgModel>|
            is_sendable(addr, args) && datagram@ == #[trigger] message_bytes(addr, args) ==> (
            packet is Some && held(packet->0) == (PacketModel::Message { addr, args })),
{
    match rosc::decoder::decode_udp(datagram) {
        Ok((_, packet)) => Some(packet),
        Err(_) => None,
    }
}

/// `rosc::encoder::encode` on a message with these arguments; an argument of
/// another type goes out as nil. The encoder reports no error for a message,
/// and its bytes are [`message_bytes`].
#[verifier::external_body]
fn encode(addr: &str, args: Vec<OscArg>) -> (bytes: Option<Vec<u8>>)
    requires
        forall|i: int| 0 <= i < args@.len() ==> !(#[trigger] args@[i] is Float),
    ensures
        bytes is Some,
        bytes->0@ == message_bytes(addr@, arg_models(args@)),
{
    let arg = |arg| match arg {
        OscArg::Int(v) => rosc::OscType::Int(v),
        OscArg::Text(v) => rosc::OscType::String(v),
        OscArg::Bool(v) => rosc::OscType::Bool(v),
        _ => rosc::OscType::Nil,
    };
    let args = args.into_iter().map(arg).collect();
    let message = rosc::OscMessage { addr: addr.to_string(), args };
    rosc::encoder::encode(&rosc::OscPacket::Message(message)).ok()
}

/// The packet of `rosc` as a [`Packet`].
fn packet_from(packet: rosc::OscPacket) -> (result: Packet)
    ensures
        result.model() == held(packet),
    decreases held(packet),
{
    match parts(packet) {
        Parts::Message { addr, args } => Packet::Message { addr, args },
        Parts::Bundle { content } => {
            let ghost models = held(packet)->content;
            let mut converted: Vec<Packet> = Vec::new();
            for inner in iter: content
                invariant
                    held(packet) == (PacketModel::Bundle { content: models }),
                    models.len() == iter.seq().len(),
                    forall|j: int| 0 <= j < models.len() ==> models[j] == held(iter.seq()[j]),
                    converted@.len() == iter.index(),
                    forall|j: int|
                        0 <= j < converted@.len() ==> converted@[j].model() == models[j],
            {
                assert(held(inner) == models[iter.index() as int]);
                assert(decreases_to!(held(packet) => held(packet)->content));
                assert(decreases_to!(models => models[iter.index() as int]));
                converted.push(packet_from(inner));
            }
            let result = Packet::Bundle { content: converted };
            assert(result.model()->content =~= models);
            result
        },
    }
}

/// What a datagram holds, or nothing where it is no packet.
pub fn decode_datagram(datagram: &[u8]) -> (packet: Option<Packet>)
    requires
        datagram@.len() <= MTU,
    ensures
        match packet {
            Some(p) => decoded(datagram@) == Some(p.model()),
            None => decoded(datagram@) is None,
        },
        forall|addr: Seq<char>, args: Seq<ArgModel>|
            is_sendable(addr, args) && datagram@ == #[trigger] message_bytes(addr, args) ==> (
            packet is Some && packet->0.model() == (PacketModel::Message { addr, args })),
{
    match decode_udp(datagram) {
        Some(packet) => Some(packet_from(packet)),
        None => None,
    }
}

/// What a datagram asks for, if it speaks to the avatar parameter at all.
pub fn listening_request(datagram: &[u8]) -> (value: Option<bool>)
    requires
        datagram@.len() <= MTU,
    ensures
        value == match decoded(datagram@) {
            Some(packet) => packet_value(packet),
            None => None,
        },
        forall|addr: Seq<char>, args: Seq<ArgModel>|
            is_sendable(addr, args) && datagram@ == #[trigger] message_bytes(addr, args) ==> value
                == if addr == PERIHELION_ADDRESS@ {
                Some(args_turn_on(args))
            } else {
                None
            },
{
    match decode_datagram(datagram) {
        Some(packet) => extract_perihelion_value(&packet),
        None => None,
    }
}

/// A message to the avatar parameter with one plain argument is read back as
/// it was written.
pub proof fn avatar_parameter_is_sendable(arg: ArgModel)
    requires
        is_plain_arg(arg),
    ensures
        is_sendable(PERIHELION_ADDRESS@, seq![arg]),
{
    reveal_strlit("/avatar/parameters/perihelion");
}

/// The arguments of a chatbox message: at most [`CHATBOX_LIMIT`] characters of
/// the text, and that it is to be sent at once.
pub open spec fn chatbox_args(text: Seq<char>) -> Seq<ArgModel> {
    seq![ArgModel::Text(truncated(text, CHATBOX_LIMIT as int)), ArgModel::Bool(true)]
}

/// The arguments of the typing indicator.
pub open spec fn typing_args(typing: bool) -> Seq<ArgModel> {
    seq![ArgModel::Bool(typing)]
}

/// The message that puts `text` into the chatbox.
pub fn chatbox_message(text: &str) -> (bytes: Vec<u8>)
    ensures
        bytes@ == message_bytes(CHATBOX_INPUT_ADDRESS@, chatbox_args(text@)),
{
    let mut args: Vec<OscArg> = Vec::new();
    args.push(OscArg::Text(truncate(text, CHATBOX_LIMIT)));
    args.push(OscArg::Bool(true));
    assert(arg_models(args@) =~= chatbox_args(text@));
    encode(CHATBOX_INPUT_ADDRESS, args).unwrap()
}

/// The message that sets the typing indicator.
pub fn typing_message(typing: bool) -> (bytes: Vec<u8>)
    ensures
        bytes@ == message_bytes(CHATBOX_TYPING_ADDRESS@, typing_args(typing)),
{
    let mut args: Vec<OscArg> = Vec::new();
    args.push(OscArg::Bool(typing));
    assert(arg_models(args@) =~= typing_args(typing));
    encode(CHATBOX_TYPING_ADDRESS, args).unwrap()
}

/// Only messages to the parameter that is named like the program ask for
/// anything, and every such message does.
pub proof fn only_the_avatar_parameter_asks(addr: Seq<char>, args: Seq<ArgModel>)
    ensures
        packet_value(PacketModel::Message { addr, args }) is Some <==> addr
            == "/avatar/parameters/perihelion"@,
{
}

/// A single boolean asks for what it says, an integer for listening if it is
/// positive, a float if it is above one half; anything else asks for silence.
pub proof fn argument_says_what_is_asked_for(args: Seq<ArgModel>)
    ensures
        ({
            let asked = packet_value(
                PacketModel::Message { addr: "/avatar/parameters/perihelion"@, args },
            );
            &&& args.len() != 1 ==> asked == Some(false)
            &&& args.len() == 1 ==> match args[0] {
                ArgModel::Bool(v) => asked == Some(v),
                ArgModel::Int(v) => asked == Some(v >= 1),
                ArgModel::Float(bits) => asked == Some(float_above_half(bits)),
                ArgModel::Text(_) => asked == Some(false),
                ArgModel::Other => asked == Some(false),
            }
        }),
{
}

/// One half, whose bits are `0x3f00_0000`, is the greatest number that is not
/// above one half. The bits of numbers that are not negative are in the order of
/// the numbers, up to infinity; nothing negative is above, and no NaN.
pub proof fn one_half_is_the_threshold(lower: u32, higher: u32)
    ensures
        !float_above_half(0x3f00_0000),
        float_above_half(0x3f00_0001),
        lower <= higher <= 0x7f80_0000 && float_above_half(lower) ==> float_above_half(higher),
        lower > 0x7f80_0000 ==> !float_above_half(lower),
{
}

/// In a bundle the first packet that asks for anything decides, whatever comes
/// behind it.
pub proof fn first_packet_that_asks_decides(
    before: Seq<PacketModel>,
    packet: PacketModel,
    after: Seq<PacketModel>,
)
    requires
        forall|i: int| 0 <= i < before.len() ==> packet_value(#[trigger] before[i]) is None,
        packet_value(packet) is Some,
    ensures
        packet_value(PacketModel::Bundle { content: before + seq![packet] + after })
            == packet_value(packet),
    decreases before.len(),
{
    let content = before + seq![packet] + after;
    if before.len() == 0 {
        assert(content[0] == packet);
    } else {
        let rest = before.skip(1);
        assert(content[0] == before[0]);
        assert(content.skip(1) =~= rest + seq![packet] + after);
        assert forall|i: int| 0 <= i < rest.len() implies packet_value(
            #[trigger] rest[i],
        ) is None by {
            assert(rest[i] == before[i + 1]);
        }
        first_packet_that_asks_decides(rest, packet, after);
        assert(packet_value(PacketModel::Bundle { content: content.skip(1) }) == first_value(
            content.skip(1),
        ));
    }
}

/// A bundle in which no packet asks for anything asks for nothing.
pub proof fn bundle_asks_only_what_its_packets_ask(content: Seq<PacketModel>)
    requires
        forall|i: int| 0 <= i < content.len() ==> packet_value(#[trigger] content[i]) is None,
    ensures
        packet_value(PacketModel::Bundle { content }) is None,
    decreases content.len(),
{
    if content.len() > 0 {
        let rest = content.skip(1);
        assert forall|i: int| 0 <= i < rest.len() implies packet_value(
            #[trigger] rest[i],
        ) is None by {
            assert(rest[i] == content[i + 1]);
        }
        bundle_asks_only_what_its_packets_ask(rest);
        assert(packet_value(PacketModel::Bundle { content: rest }) == first_value(rest));
        assert(packet_value(content[0]) is None);
    }
}

/// The chatbox is sent the front of a text, as much of it as 140 characters
/// hold, and asked to show it at once; the typing indicator is sent what it is
/// to show.
pub proof fn chatbox_is_sent_the_front_of_a_text(text: Seq<char>, typing: bool)
    ensures
        chatbox_args(text).len() == 2,
        chatbox_args(text)[0] is Text,
        chatbox_args(text)[0]->Text_0.is_prefix_of(text),
        chatbox_args(text)[0]->Text_0.len() == if text.len() < 140 {
            text.len()
        } else {
            140
        },
        chatbox_args(text)[1] == ArgModel::Bool(true),
        typing_args(typing) == seq![ArgModel::Bool(typing)],
        CHATBOX_INPUT_ADDRESS@ == "/chatbox/input"@,
        CHATBOX_TYPING_ADDRESS@ == "/chatbox/typing"@,
{
    let sent = chatbox_args(text)[0]->Text_0;
    assert(text.subrange(0, sent.len() as int) =~= sent);
}

/// Bytes are padded with zeros, at least one, up to the next multiple of four.
pub proof fn padding_ends_on_a_multiple_of_four(bytes: Seq<u8>)
    ensures
        padded(bytes).len() % 4 == 0,
        bytes.len() < padded(bytes).len() <= bytes.len() + 4,
        padded(bytes).take(bytes.len() as int) == bytes,
        forall|i: int| bytes.len() <= i < padded(bytes).len() ==> #[trigger] padded(bytes)[i] == 0,
{
    assert(padded(bytes).take(bytes.len() as int) =~= bytes);
}

/// A packet is spoken of by all that it holds: its address and every argument,
/// or every packet of the bundle, in order.
pub proof fn packets_are_spoken_of_whole(packet: Packet, i: int)
    ensures
        packet matches Packet::Message { addr, args } ==> {
            &&& packet.model() is Message
            &&& packet.model()->addr == addr@
            &&& packet.model()->args.len() == args@.len()
            &&& 0 <= i < args@.len() ==> match args@[i] {
                OscArg::Int(v) => packet.model()->args[i] == ArgModel::Int(v),
                OscArg::Float(bits) => packet.model()->args[i] == ArgModel::Float(bits),
                OscArg::Text(text) => packet.model()->args[i] == ArgModel::Text(text@),
                OscArg::Bool(v) => packet.model()->args[i] == ArgModel::Bool(v),
                OscArg::Other => packet.model()->args[i] == ArgModel::Other,
            }
        },
        packet matches Packet::Bundle { content } ==> {
            &&& packet.model() is Bundle
            &&& packet.model()->content.len() == content@.len()
            &&& 0 <= i < content@.len() ==> packet.model()->content[i] == content@[i].model()
        },
{
}

}
