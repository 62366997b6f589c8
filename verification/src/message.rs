//! OSC messages, bundles and packets, socket addresses, and the answer a
//! handler can prepare for the sender of a request.
use crate::address::Address;
use crate::osc_type::{args_view, OscArg, OscTime, SpecArg};
use vstd::prelude::*;

verus! {

/// An OSC message: an address and zero or more arguments.
#[derive(Debug)]
pub struct Message {
    pub addr: String,
    pub args: Vec<OscArg>,
}

/// An OSC packet: a message, or a bundle of packets with a time tag.
#[derive(Debug)]
pub enum Packet {
    Message(Message),
    Bundle { timetag: OscTime, content: Vec<Packet> },
}

/// An IP socket address, with the fields of `std::net::SocketAddr`.
#[derive(Clone, Copy, Debug, PartialEq, Eq)]
pub enum SocketAddress {
    V4 { ip: [u8; 4], port: u16 },
    V6 { ip: [u8; 16], port: u16, flowinfo: u32, scope_id: u32 },
}

/// The port of a socket address.
pub open spec fn port_of(a: SocketAddress) -> u16 {
    match a {
        SocketAddress::V4 { port, .. } => port,
        SocketAddress::V6 { port, .. } => port,
    }
}

/// The socket address with its port replaced and everything else kept.
pub open spec fn with_port(a: SocketAddress, port: u16) -> SocketAddress {
    match a {
        SocketAddress::V4 { ip, .. } => SocketAddress::V4 { ip, port },
        SocketAddress::V6 { ip, flowinfo, scope_id, .. } => SocketAddress::V6 {
            ip,
            port,
            flowinfo,
            scope_id,
        },
    }
}

impl SocketAddress {
    /// The port.
    pub fn port(&self) -> (r: u16)
        ensures
            r == port_of(*self),
    {
        match self {
            SocketAddress::V4 { port, .. } => *port,
            SocketAddress::V6 { port, .. } => *port,
        }
    }

    /// Replaces the port, keeping the IP address.
    pub fn set_port(&mut self, new_port: u16)
        ensures
            *final(self) == with_port(*old(self), new_port),
    {
        match self {
            SocketAddress::V4 { ip, port } => {
                *self = SocketAddress::V4 { ip: *ip, port: new_port };
            },
            SocketAddress::V6 { ip, port, flowinfo, scope_id } => {
                *self = SocketAddress::V6 {
                    ip: *ip,
                    port: new_port,
                    flowinfo: *flowinfo,
                    scope_id: *scope_id,
                };
            },
        }
    }
}

/// The content of an [`OscAnswer`].
pub struct AnswerView {
    pub addr: Seq<char>,
    pub args: Seq<SpecArg>,
    pub to_addr: SocketAddress,
    pub will_be_sent: bool,
}

/// An answer that a handler can prepare to be sent back. It starts out
/// addressed to the handler's OSC address, without arguments, to be returned
/// to the sender of the request, and not marked to be sent.
pub struct OscAnswer {
    msg: Message,
    to_addr: SocketAddress,
    will_be_sent: bool,
}

impl View for OscAnswer {
    type V = AnswerView;

    closed spec fn view(&self) -> AnswerView {
        AnswerView {
            addr: self.msg.addr@,
            args: args_view(self.msg.args@),
            to_addr: self.to_addr,
            will_be_sent: self.will_be_sent,
        }
    }
}

/// The answer to a request for the handler at `address` from `from`.
pub open spec fn fresh_answer(address: Seq<char>, from: SocketAddress) -> AnswerView {
    AnswerView { addr: address, args: Seq::empty(), to_addr: from, will_be_sent: false }
}

impl OscAnswer {
    /// The answer to a request for the handler registered at `address`,
    /// received from `from`.
    pub fn reply_to(address: &Address, from: SocketAddress) -> (r: OscAnswer)
        ensures
            r@ == fresh_answer(address@, from),
    {
        let addr = address.as_str().to_owned();
        let args: Vec<OscArg> = Vec::new();
        let r = OscAnswer { msg: Message { addr, args }, to_addr: from, will_be_sent: false };
        proof {
            assert(r@.args =~= Seq::<SpecArg>::empty());
        }
        r
    }

    /// Sets the IP address and port the answer is returned to.
    pub fn set_return_address(&mut self, addr: &SocketAddress)
        ensures
            final(self)@ == (AnswerView { to_addr: *addr, ..old(self)@ }),
    {
        self.to_addr = *addr;
    }

    /// Sets the port the answer is returned to; the IP address stays that of
    /// the sender of the request.
    pub fn set_port(&mut self, port: u16)
        ensures
            final(self)@ == (AnswerView { to_addr: with_port(old(self)@.to_addr, port), ..old(self)@ }),
    {
        self.to_addr.set_port(port);
    }

    /// Sets the OSC address of the answer.
    pub fn set_osc_address(&mut self, path: &str)
        ensures
            final(self)@ == (AnswerView { addr: path@, ..old(self)@ }),
    {
        self.msg.addr = path.to_owned();
    }

    /// Replaces all arguments of the answer.
    pub fn replace_arguments(&mut self, args: Vec<OscArg>)
        ensures
            final(self)@ == (AnswerView { args: args_view(args@), ..old(self)@ }),
    {
        self.msg.args = args;
    }

    /// Adds one argument after those already there.
    pub fn add_argument(&mut self, arg: OscArg)
        ensures
            final(self)@ == (AnswerView { args: old(self)@.args.push(arg@), ..old(self)@ }),
    {
        self.msg.args.push(arg);
        proof {
            assert(args_view(self.msg.args@) =~= args_view(old(self).msg.args@).push(arg@));
        }
    }

    /// Marks whether the answer is sent once the handler returns.
    pub fn mark_send(&mut self, will_be_sent: bool)
        ensures
            final(self)@ == (AnswerView { will_be_sent, ..old(self)@ }),
    {
        self.will_be_sent = will_be_sent;
    }

    /// The OSC address of the answer.
    pub fn osc_address(&self) -> (r: &str)
        ensures
            r@ == self@.addr,
    {
        self.msg.addr.as_str()
    }

    /// The arguments of the answer.
    pub fn arguments(&self) -> (r: &[OscArg])
        ensures
            args_view(r@) == self@.args,
    {
        self.msg.args.as_slice()
    }

    /// Where the answer is returned to.
    pub fn return_address(&self) -> (r: SocketAddress)
        ensures
            r == self@.to_addr,
    {
        self.to_addr
    }

    /// Whether the answer is marked to be sent.
    pub fn will_be_sent(&self) -> (r: bool)
        ensures
            r == self@.will_be_sent,
    {
        self.will_be_sent
    }

    /// The message to send and where to send it, if the answer is marked to
    /// be sent.
    pub fn into_reply(self) -> (r: Option<(Packet, SocketAddress)>)
        ensures
            r is Some <==> self@.will_be_sent,
            r matches Some((p, to)) ==> {
                &&& p matches Packet::Message(m)
                &&& m.addr@ == self@.addr
                &&& args_view(m.args@) == self@.args
                &&& to == self@.to_addr
            },
    {
        if self.will_be_sent {
            Some((Packet::Message(self.msg), self.to_addr))
        } else {
            None
        }
    }
}

/// Arguments added one after another stand in the order of the calls.
pub proof fn lemma_arguments_in_call_order(v: AnswerView, a: SpecArg, b: SpecArg)
    ensures
        v.args.push(a).push(b) == v.args + seq![a, b],
        v.args.push(a).push(b)[v.args.len() as int] == a,
        v.args.push(a).push(b)[(v.args.len() + 1) as int] == b,
{
    assert(v.args.push(a).push(b) =~= v.args + seq![a, b]);
}

/// Setting the port keeps the IP address (every byte of it, and for IPv6
/// the flow and scope ids) and sets nothing but the port.
pub proof fn lemma_set_port_keeps_ip(a: SocketAddress, port: u16)
    ensures
        port_of(with_port(a, port)) == port,
        with_port(with_port(a, port), port_of(a)) == a,
        a matches SocketAddress::V4 { ip, .. } ==> with_port(a, port) == (SocketAddress::V4 {
            ip,
            port,
        }),
        a matches SocketAddress::V6 { ip, flowinfo, scope_id, .. } ==> with_port(a, port)
            == (SocketAddress::V6 { ip, port, flowinfo, scope_id }),
{
}

} // verus!
