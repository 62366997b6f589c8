//! The handlers of an OSC server, and which handlers a received packet is
//! dispatched to, with which arguments.
use crate::address::{is_valid_address, pattern_compiles, pattern_matches, Address, AddressPattern};
use crate::message::Packet;
use crate::osc_type::{
    args_view, coerce_all, coerce_arguments, coerced_view, coercion_defined,
    coercion_is_defined, dropped_all, unsupported_arguments, Coerced, OscArg, SpecArg, SpecCoerced,
};
use crate::datagram::{decode_datagram, decode_result};
use rosc::OscError;
use crate::text::chars_of;
use vstd::prelude::*;

verus! {

/// A handler: the address it is registered for, the type tags of the
/// arguments it expects, and the callback that runs it.
pub struct Handler<H> {
    address: Address,
    types: Vec<char>,
    callback: H,
}

/// The content of a [`Handler`].
pub struct HandlerView<H> {
    pub address: Seq<char>,
    pub types: Seq<char>,
    pub callback: H,
}

impl<H> View for Handler<H> {
    type V = HandlerView<H>;

    closed spec fn view(&self) -> HandlerView<H> {
        HandlerView { address: self.address@, types: self.types@, callback: self.callback }
    }
}

impl<H> Handler<H> {
    /// The address the handler is registered for.
    pub fn address(&self) -> (r: &Address)
        ensures
            r@ == self@.address,
    {
        &self.address
    }

    /// The type tags of the arguments the handler expects.
    pub fn types(&self) -> (r: &[char])
        ensures
            r@ == self@.types,
    {
        self.types.as_slice()
    }

    /// The callback.
    pub fn callback(&self) -> (r: &H)
        ensures
            *r == self@.callback,
    {
        &self.callback
    }
}

/// The error of a registration.
#[derive(Debug, PartialEq, Eq, Structural)]
pub enum RegistryError {
    /// The path is not a valid OSC address.
    InvalidAddress,
}

/// The handlers of a server, in the order of their first registration, at
/// most one per address.
pub struct Registry<H> {
    handlers: Vec<Handler<H>>,
}

/// The contents of a sequence of handlers.
pub open spec fn handlers_view<H>(hs: Seq<Handler<H>>) -> Seq<HandlerView<H>> {
    hs.map_values(|h: Handler<H>| h@)
}

impl<H> View for Registry<H> {
    type V = Seq<HandlerView<H>>;

    closed spec fn view(&self) -> Seq<HandlerView<H>> {
        handlers_view(self.handlers@)
    }
}

/// No two handlers share an address, and every address is valid.
pub open spec fn well_formed<H>(hs: Seq<HandlerView<H>>) -> bool {
    &&& forall|i: int, j: int|
        0 <= i < hs.len() && 0 <= j < hs.len() && i != j ==> #[trigger] hs[i].address
            != #[trigger] hs[j].address
    &&& forall|i: int| 0 <= i < hs.len() ==> is_valid_address(#[trigger] hs[i].address)
}

/// The position of the handler registered at `address`, if there is one.
pub open spec fn find_address<H>(hs: Seq<HandlerView<H>>, address: Seq<char>) -> Option<int> {
    if exists|i: int| 0 <= i < hs.len() && #[trigger] hs[i].address == address {
        Some(choose|i: int| 0 <= i < hs.len() && #[trigger] hs[i].address == address)
    } else {
        None
    }
}

/// The handler registered at `address`, if there is one.
pub open spec fn lookup<H>(hs: Seq<HandlerView<H>>, address: Seq<char>) -> Option<HandlerView<H>> {
    match find_address(hs, address) {
        Some(i) => Some(hs[i]),
        None => None,
    }
}

/// The handlers after registering `callback` for `types` at `address`: a
/// handler already at that address is replaced in place, otherwise the new
/// one comes last.
pub open spec fn with_handler<H>(
    hs: Seq<HandlerView<H>>,
    address: Seq<char>,
    types: Seq<char>,
    callback: H,
) -> Seq<HandlerView<H>> {
    let h = HandlerView { address, types, callback };
    match find_address(hs, address) {
        Some(i) => hs.update(i, h),
        None => hs.push(h),
    }
}

/// A handler to run, with the coerced arguments to pass to it (`None` where
/// coercing the arguments is not defined, see [`coercion_defined`]), and the
/// expected type tags of the arguments that could not be coerced and are
/// left out.
pub struct Dispatch {
    pub handler: usize,
    pub args: Option<Vec<Coerced>>,
    pub unsupported: Vec<char>,
}

/// The content of a [`Dispatch`].
pub struct DispatchView {
    pub handler: int,
    pub args: Option<Seq<SpecCoerced>>,
    pub unsupported: Seq<char>,
}

impl View for Dispatch {
    type V = DispatchView;

    open spec fn view(&self) -> DispatchView {
        DispatchView {
            handler: self.handler as int,
            args: match self.args {
                Some(v) => Some(coerced_view(v@)),
                None => None,
            },
            unsupported: self.unsupported@,
        }
    }
}

/// The run of the handler at position `i`, which expects `types`, for the
/// arguments `args`.
pub open spec fn run_of(i: int, args: Seq<SpecArg>, types: Seq<char>) -> DispatchView {
    if coercion_defined(args, types) {
        DispatchView { handler: i, args: Some(coerce_all(args, types)), unsupported: dropped_all(args, types) }
    } else {
        DispatchView { handler: i, args: None, unsupported: Seq::empty() }
    }
}

/// The contents of a sequence of dispatches.
pub open spec fn dispatches_view(s: Seq<Dispatch>) -> Seq<DispatchView> {
    s.map_values(|d: Dispatch| d@)
}

/// What a message with arguments `args` does to the handler at position `i`:
/// nothing when the number of arguments is neither zero nor the number of
/// expected types, else one run with the coerced arguments.
pub open spec fn dispatch_for<H>(hs: Seq<HandlerView<H>>, i: int, args: Seq<SpecArg>) -> Seq<
    DispatchView,
> {
    let types = hs[i].types;
    if args.len() != types.len() && args.len() != 0 {
        Seq::empty()
    } else {
        seq![run_of(i, args, types)]
    }
}

/// The positions below `n` of the handlers whose address matches `pattern`,
/// in order.
pub open spec fn matching_handlers<H>(hs: Seq<HandlerView<H>>, pattern: Seq<char>, n: nat) -> Seq<
    int,
>
    decreases n,
{
    if n == 0 {
        Seq::empty()
    } else {
        let prev = matching_handlers(hs, pattern, (n - 1) as nat);
        if pattern_matches(pattern, hs[n - 1].address) {
            prev.push(n - 1)
        } else {
            prev
        }
    }
}

/// The handlers a message to `address` is for: the one registered at it when
/// `address` is a valid address, else, when it is a pattern, every handler
/// whose address matches it.
pub open spec fn message_targets<H>(hs: Seq<HandlerView<H>>, address: Seq<char>) -> Seq<int> {
    if is_valid_address(address) {
        match find_address(hs, address) {
            Some(i) => seq![i],
            None => Seq::empty(),
        }
    } else if pattern_compiles(address) {
        matching_handlers(hs, address, hs.len())
    } else {
        Seq::empty()
    }
}

/// The runs of the handlers at `targets`, in order.
pub open spec fn dispatches<H>(hs: Seq<HandlerView<H>>, targets: Seq<int>, args: Seq<SpecArg>) -> Seq<
    DispatchView,
>
    decreases targets.len(),
{
    if targets.len() == 0 {
        Seq::empty()
    } else {
        dispatches(hs, targets.drop_last(), args) + dispatch_for(hs, targets.last(), args)
    }
}

/// The handler runs for a message.
pub open spec fn message_plan<H>(hs: Seq<HandlerView<H>>, address: Seq<char>, args: Seq<SpecArg>) -> Seq<
    DispatchView,
> {
    dispatches(hs, message_targets(hs, address), args)
}

/// The handler runs for a packet: those of a message, or those of each
/// packet of a bundle in turn.
pub open spec fn packet_plan<H>(hs: Seq<HandlerView<H>>, packet: Packet) -> Seq<DispatchView>
    decreases packet,
{
    match packet {
        Packet::Message(m) => message_plan(hs, m.addr@, args_view(m.args@)),
        Packet::Bundle { content, .. } => {
            proof {
                assert(decreases_to!(content => content@));
            }
            bundle_plan(hs, content@)
        },
    }
}

/// The handler runs for a sequence of packets, in order.
pub open spec fn bundle_plan<H>(hs: Seq<HandlerView<H>>, items: Seq<Packet>) -> Seq<DispatchView>
    decreases items,
{
    if items.len() == 0 {
        Seq::empty()
    } else {
        bundle_plan(hs, items.drop_last()) + packet_plan(hs, items.last())
    }
}

impl<H> Registry<H> {
    /// No two handlers share an address, and every address is valid.
    #[verifier::type_invariant]
    pub open spec fn inv(&self) -> bool {
        well_formed(self@)
    }

    /// An empty registry.
    pub fn new() -> (r: Registry<H>)
        ensures
            r@ == Seq::<HandlerView<H>>::empty(),
    {
        let r = Registry { handlers: Vec::new() };
        proof {
            assert(r@ =~= Seq::<HandlerView<H>>::empty());
        }
        r
    }

    /// The number of handlers.
    pub fn len(&self) -> (r: usize)
        ensures
            r == self@.len(),
    {
        self.handlers.len()
    }

    /// The handler at position `i`.
    pub fn handler(&self, i: usize) -> (r: &Handler<H>)
        requires
            i < self@.len(),
        ensures
            r@ == self@[i as int],
    {
        &self.handlers[i]
    }

    /// The position of the handler registered at `address`, if there is one.
    pub fn position(&self, address: &Address) -> (r: Option<usize>)
        ensures
            r matches Some(i) ==> find_address(self@, address@) == Some(i as int),
            r is None ==> find_address(self@, address@) is None,
            r matches Some(i) ==> i < self@.len() && self@[i as int].address == address@,
    {
        proof {
            use_type_invariant(self);
        }
        let mut i: usize = 0;
        while i < self.handlers.len()
            invariant
                i <= self@.len(),
                self@.len() == self.handlers@.len(),
                well_formed(self@),
                forall|j: int| 0 <= j < i ==> #[trigger] self@[j].address != address@,
            decreases self.handlers.len() - i,
        {
            assert(self@[i as int] == self.handlers@[i as int]@);
            if self.handlers[i].address.same_as(address) {
                proof {
                    lemma_find_unique(self@, i as int);
                }
                return Some(i);
            }
            i = i + 1;
        }
        proof {
            assert(!exists|j: int| 0 <= j < self@.len() && #[trigger] self@[j].address == address@);
        }
        None
    }

    /// The handler registered at `path`, if there is one.
    pub fn lookup(&self, path: &str) -> (r: Option<&Handler<H>>)
        ensures
            r matches Some(h) ==> lookup(self@, path@) == Some(h@),
            r is None ==> lookup(self@, path@) is None,
    {
        match Address::new(path) {
            Some(address) => match self.position(&address) {
                Some(i) => {
                    assert(self@[i as int] == self.handlers@[i as int]@);
                    Some(&self.handlers[i])
                },
                None => None,
            },
            None => {
                proof {
                    use_type_invariant(self);
                    if exists|j: int| 0 <= j < self@.len() && #[trigger] self@[j].address == path@ {
                        let j = choose|j: int| 0 <= j < self@.len() && #[trigger] self@[j].address == path@;
                        assert(is_valid_address(self@[j].address));
                    }
                }
                None
            },
        }
    }

    /// Registers `callback` for the arguments typed `types` at the address
    /// `path`, replacing the handler already registered there. Fails when
    /// `path` is not a valid OSC address.
    pub fn register(&mut self, path: &str, types: &str, callback: H) -> (r: Result<(), RegistryError>)
        ensures
            r is Ok <==> is_valid_address(path@),
            r is Ok ==> final(self)@ == with_handler(old(self)@, path@, types@, callback),
            r is Err ==> final(self)@ == old(self)@,
    {
        proof {
            use_type_invariant(&*self);
        }
        let address = match Address::new(path) {
            Some(a) => a,
            None => return Err(RegistryError::InvalidAddress),
        };
        let tags = chars_of(types);
        let pos = self.position(&address);
        let ghost old_view = self@;
        let mut handlers: Vec<Handler<H>> = Vec::new();
        std::mem::swap(&mut handlers, &mut self.handlers);
        let handler = Handler { address, types: tags, callback };
        match pos {
            Some(i) => {
                handlers.set(i, handler);
                proof {
                    assert(handlers_view(handlers@) =~= old_view.update(i as int, handler@));
                    assert forall|j: int|
                        0 <= j < handlers@.len() implies is_valid_address(
                            #[trigger] handlers_view(handlers@)[j].address,
                        ) by {
                        if j != i {
                            assert(handlers_view(handlers@)[j] == old_view[j]);
                        }
                    }
                }
            },
            None => {
                handlers.push(handler);
                proof {
                    assert(handlers_view(handlers@) =~= old_view.push(handler@));
                    assert forall|j: int|
                        0 <= j < handlers@.len() implies is_valid_address(
                            #[trigger] handlers_view(handlers@)[j].address,
                        ) by {
                        if j < old_view.len() {
                            assert(handlers_view(handlers@)[j] == old_view[j]);
                        }
                    }
                }
            },
        }
        self.handlers = handlers;
        Ok(())
    }

    /// Appends to `out` the run of the handler at position `i` for a
    /// message with arguments `args`.
    fn push_dispatch(&self, i: usize, args: &[OscArg], out: &mut Vec<Dispatch>)
        requires
            i < self@.len(),
        ensures
            dispatches_view(final(out)@) == dispatches_view(old(out)@) + dispatch_for(
                self@,
                i as int,
                args_view(args@),
            ),
    {
        let handler = &self.handlers[i];
        assert(self@[i as int] == handler@);
        assert(args_view(args@).len() == args@.len());
        if args.len() != handler.types.len() && args.len() != 0 {
            assert(dispatches_view(out@) + Seq::<DispatchView>::empty() =~= dispatches_view(out@));
            return;
        }
        let d = if coercion_is_defined(args, handler.types.as_slice()) {
            Dispatch {
                handler: i,
                args: Some(coerce_arguments(args, handler.types.as_slice())),
                unsupported: unsupported_arguments(args, handler.types.as_slice()),
            }
        } else {
            Dispatch { handler: i, args: None, unsupported: Vec::new() }
        };
        proof {
            assert(d@ == run_of(i as int, args_view(args@), self@[i as int].types));
        }
        let ghost before = out@;
        out.push(d);
        proof {
            assert(dispatches_view(out@) =~= dispatches_view(before) + seq![d@]);
        }
    }

    /// Appends to `out` the handler runs for a message to `addr` with
    /// arguments `args`.
    fn plan_message_into(&self, addr: &str, args: &[OscArg], out: &mut Vec<Dispatch>)
        ensures
            dispatches_view(final(out)@) == dispatches_view(old(out)@) + message_plan(
                self@,
                addr@,
                args_view(args@),
            ),
    {
        proof {
            use_type_invariant(self);
        }
        let ghost hs = self@;
        let ghost a = args_view(args@);
        let ghost start = dispatches_view(out@);
        match Address::new(addr) {
            Some(address) => {
                match self.position(&address) {
                    Some(i) => {
                        self.push_dispatch(i, args, out);
                        proof {
                            let t = seq![i as int];
                            assert(t.drop_last() =~= Seq::<int>::empty());
                            assert(t.last() == i as int);
                            assert(dispatches(hs, Seq::<int>::empty(), a) =~= Seq::<DispatchView>::empty());
                            assert(dispatches(hs, t, a) =~= dispatch_for(hs, i as int, a));
                        }
                    },
                    None => {
                        proof {
                            assert(start + Seq::<DispatchView>::empty() =~= start);
                        }
                    },
                }
            },
            None => {
                match AddressPattern::new(addr) {
                    Some(pattern) => {
                        let mut k: usize = 0;
                        proof {
                            assert(start + Seq::<DispatchView>::empty() =~= start);
                        }
                        while k < self.handlers.len()
                            invariant
                                k <= hs.len(),
                                hs == self@,
                                hs.len() == self.handlers@.len(),
                                a == args_view(args@),
                                pattern@ == addr@,
                                dispatches_view(out@) == start + dispatches(
                                    hs,
                                    matching_handlers(hs, addr@, k as nat),
                                    a,
                                ),
                            decreases self.handlers.len() - k,
                        {
                            let ghost m = matching_handlers(hs, addr@, k as nat);
                            assert(hs[k as int] == self.handlers@[k as int]@);
                            if pattern.matches(&self.handlers[k].address) {
                                self.push_dispatch(k, args, out);
                                proof {
                                    let m2 = m.push(k as int);
                                    assert(m2.drop_last() =~= m);
                                    assert(matching_handlers(hs, addr@, (k + 1) as nat) == m2);
                                    assert(dispatches(hs, m2, a) == dispatches(hs, m, a)
                                        + dispatch_for(hs, k as int, a));
                                    assert(start + dispatches(hs, m, a) + dispatch_for(
                                        hs,
                                        k as int,
                                        a,
                                    ) =~= start + dispatches(hs, m2, a));
                                }
                            }
                            k = k + 1;
                        }
                    },
                    None => {
                        proof {
                            assert(start + Seq::<DispatchView>::empty() =~= start);
                        }
                    },
                }
            },
        }
    }

    /// The handler runs for a message to `addr` with arguments `args`.
    pub fn plan_message(&self, addr: &str, args: &[OscArg]) -> (r: Vec<Dispatch>)
        ensures
            dispatches_view(r@) == message_plan(self@, addr@, args_view(args@)),
    {
        let mut out: Vec<Dispatch> = Vec::new();
        proof {
            assert(dispatches_view(out@) =~= Seq::<DispatchView>::empty());
        }
        self.plan_message_into(addr, args, &mut out);
        proof {
            assert(Seq::<DispatchView>::empty() + message_plan(self@, addr@, args_view(args@))
                =~= message_plan(self@, addr@, args_view(args@)));
        }
        out
    }

    /// Appends to `out` the handler runs for `packet`.
    fn plan_packet_into(&self, packet: &Packet, out: &mut Vec<Dispatch>)
        ensures
            dispatches_view(final(out)@) == dispatches_view(old(out)@) + packet_plan(self@, *packet),
        decreases packet,
    {
        match packet {
            Packet::Message(m) => {
                self.plan_message_into(m.addr.as_str(), m.args.as_slice(), out);
            },
            Packet::Bundle { content, .. } => {
                let ghost start = dispatches_view(out@);
                let ghost items = content@;
                let mut i: usize = 0;
                proof {
                    assert(packet->content == *content);
                    assert(decreases_to!(*packet => packet->content));
                    assert(items.subrange(0, 0) =~= Seq::<Packet>::empty());
                    assert(start + Seq::<DispatchView>::empty() =~= start);
                }
                while i < content.len()
                    invariant
                        i <= items.len(),
                        items == content@,
                        decreases_to!(*packet => *content),
                        dispatches_view(out@) == start + bundle_plan(
                            self@,
                            items.subrange(0, i as int),
                        ),
                    decreases items.len() - i,
                {
                    let ghost before = dispatches_view(out@);
                    proof {
                        assert(decreases_to!(*content => content[i as int]));
                    }
                    self.plan_packet_into(&content[i], out);
                    proof {
                        let pre = items.subrange(0, i as int);
                        let next = items.subrange(0, i + 1);
                        assert(next.drop_last() =~= pre);
                        assert(next.last() == items[i as int]);
                        assert(bundle_plan(self@, next) == bundle_plan(self@, pre) + packet_plan(
                            self@,
                            items[i as int],
                        ));
                        assert(start + bundle_plan(self@, pre) + packet_plan(self@, items[i as int])
                            =~= start + bundle_plan(self@, next));
                    }
                    i = i + 1;
                }
                proof {
                    assert(items.subrange(0, items.len() as int) =~= items);
                }
            },
        }
    }

    /// The handler runs for a received packet: for a message, the run of its
    /// handler or of each handler its pattern matches, in registry order; for
    /// a bundle, the runs of its packets one after the other.
    pub fn plan_packet(&self, packet: &Packet) -> (r: Vec<Dispatch>)
        ensures
            dispatches_view(r@) == packet_plan(self@, *packet),
    {
        let mut out: Vec<Dispatch> = Vec::new();
        proof {
            assert(dispatches_view(out@) =~= Seq::<DispatchView>::empty());
        }
        self.plan_packet_into(packet, &mut out);
        proof {
            assert(Seq::<DispatchView>::empty() + packet_plan(self@, *packet) =~= packet_plan(
                self@,
                *packet,
            ));
        }
        out
    }
}

impl<H> Registry<H> {
    /// The handler runs for a received datagram, the first `size` bytes of
    /// `buf`: those of the packet rosc decodes from them, or rosc's error.
    pub fn plan_datagram(&self, buf: &[u8], size: usize) -> (r: Result<Vec<Dispatch>, OscError>)
        requires
            size <= buf@.len(),
        ensures
            r is Err <==> decode_result(buf@.take(size as int)) is Err,
            r matches Err(e) ==> decode_result(buf@.take(size as int)) == Err::<Packet, OscError>(e),
            r matches Ok(d) ==> decode_result(buf@.take(size as int)) matches Ok(p) && dispatches_view(d@)
                == packet_plan(self@, p),
    {
        let bytes = vstd::slice::slice_subrange(buf, 0, size);
        proof {
            assert(bytes@ =~= buf@.take(size as int));
        }
        match decode_datagram(bytes) {
            Ok(packet) => Ok(self.plan_packet(&packet)),
            Err(e) => Err(e),
        }
    }
}

/// In a well-formed registry the handler at position `i` is the one found
/// for its address.
pub proof fn lemma_find_unique<H>(hs: Seq<HandlerView<H>>, i: int)
    requires
        well_formed(hs),
        0 <= i < hs.len(),
    ensures
        find_address(hs, hs[i].address) == Some(i),
{
    assert(0 <= i < hs.len() && hs[i].address == hs[i].address);
}


/// Registering a handler at a valid address makes it the handler found at
/// that address, leaves the handlers of every other address as they were,
/// keeps the registry well formed, and adds an entry only when the address
/// had none.
pub proof fn lemma_register_then_lookup<H>(
    hs: Seq<HandlerView<H>>,
    address: Seq<char>,
    types: Seq<char>,
    callback: H,
    other: Seq<char>,
)
    requires
        well_formed(hs),
        is_valid_address(address),
    ensures
        well_formed(with_handler(hs, address, types, callback)),
        lookup(with_handler(hs, address, types, callback), address) == Some(
            HandlerView { address, types, callback },
        ),
        other != address ==> lookup(with_handler(hs, address, types, callback), other) == lookup(
            hs,
            other,
        ),
        with_handler(hs, address, types, callback).len() == if lookup(hs, address) is Some {
            hs.len()
        } else {
            hs.len() + 1
        },
{
    let h = HandlerView { address, types, callback };
    let hs2 = with_handler(hs, address, types, callback);
    match find_address(hs, address) {
        Some(i) => {
            assert(hs2 == hs.update(i, h));
            assert(hs[i].address == address);
        },
        None => {
            assert(hs2 == hs.push(h));
            assert(forall|j: int| 0 <= j < hs.len() ==> #[trigger] hs[j].address != address);
        },
    }
    assert(well_formed(hs2)) by {
        assert forall|i: int, j: int|
            0 <= i < hs2.len() && 0 <= j < hs2.len() && i != j implies #[trigger] hs2[i].address
            != #[trigger] hs2[j].address by {
            if hs2[i].address == hs2[j].address {
                if hs2[i].address == address {
                    match find_address(hs, address) {
                        Some(k) => {
                            if i != k {
                                assert(hs2[i] == hs[i]);
                            }
                            if j != k {
                                assert(hs2[j] == hs[j]);
                            }
                        },
                        None => {
                            if i < hs.len() {
                                assert(hs2[i] == hs[i]);
                            }
                            if j < hs.len() {
                                assert(hs2[j] == hs[j]);
                            }
                        },
                    }
                } else {
                    match find_address(hs, address) {
                        Some(k) => {
                            assert(hs2[i] == hs[i]);
                            assert(hs2[j] == hs[j]);
                        },
                        None => {
                            assert(i < hs.len() && j < hs.len());
                            assert(hs2[i] == hs[i]);
                            assert(hs2[j] == hs[j]);
                        },
                    }
                }
            }
        }
    }
    let k = match find_address(hs, address) {
        Some(k) => k,
        None => hs.len() as int,
    };
    assert(hs2[k] == h);
    lemma_find_unique(hs2, k);
    if other != address {
        if exists|j: int| 0 <= j < hs.len() && #[trigger] hs[j].address == other {
            let j = choose|j: int| 0 <= j < hs.len() && #[trigger] hs[j].address == other;
            assert(j != k);
            assert(hs2[j] == hs[j]);
            lemma_find_unique(hs, j);
            lemma_find_unique(hs2, j);
        } else {
            assert forall|j: int| 0 <= j < hs2.len() implies #[trigger] hs2[j].address != other by {
                if j != k {
                    assert(hs2[j] == hs[j]);
                }
            }
        }
    }
}

/// A message to the address of a registered handler runs that handler once,
/// with the coerced arguments, when it carries no arguments or as many as
/// the handler expects, and runs nothing otherwise.
pub proof fn lemma_exact_dispatch<H>(hs: Seq<HandlerView<H>>, i: int, args: Seq<SpecArg>)
    requires
        well_formed(hs),
        0 <= i < hs.len(),
    ensures
        message_plan(hs, hs[i].address, args) == if args.len() == 0 || args.len()
            == hs[i].types.len() {
            seq![run_of(i, args, hs[i].types)]
        } else {
            Seq::<DispatchView>::empty()
        },
{
    lemma_find_unique(hs, i);
    let t = seq![i];
    assert(message_targets(hs, hs[i].address) == t);
    assert(t.drop_last() =~= Seq::<int>::empty());
    assert(dispatches(hs, Seq::<int>::empty(), args) =~= Seq::<DispatchView>::empty());
    assert(dispatches(hs, t, args) =~= dispatch_for(hs, i, args));
}

/// A message to a valid address at which no handler is registered runs
/// nothing.
pub proof fn lemma_unregistered_address<H>(hs: Seq<HandlerView<H>>, address: Seq<char>, args: Seq<SpecArg>)
    requires
        is_valid_address(address),
        lookup(hs, address) is None,
    ensures
        message_plan(hs, address, args) == Seq::<DispatchView>::empty(),
{
}

/// The positions found for a pattern are those, in increasing order, of the
/// handlers whose address the pattern matches.
pub proof fn lemma_matching_handlers<H>(hs: Seq<HandlerView<H>>, pattern: Seq<char>, n: nat)
    requires
        n <= hs.len(),
    ensures
        forall|k: int|
            0 <= k < matching_handlers(hs, pattern, n).len() ==> 0 <= #[trigger] matching_handlers(
                hs,
                pattern,
                n,
            )[k] < n && pattern_matches(pattern, hs[matching_handlers(hs, pattern, n)[k]].address),
        forall|j: int|
            0 <= j < n && pattern_matches(pattern, #[trigger] hs[j].address) ==> matching_handlers(
                hs,
                pattern,
                n,
            ).contains(j),
        forall|k1: int, k2: int|
            0 <= k1 < k2 < matching_handlers(hs, pattern, n).len() ==> #[trigger] matching_handlers(
                hs,
                pattern,
                n,
            )[k1] < #[trigger] matching_handlers(hs, pattern, n)[k2],
    decreases n,
{
    if n > 0 {
        lemma_matching_handlers(hs, pattern, (n - 1) as nat);
        let prev = matching_handlers(hs, pattern, (n - 1) as nat);
        if pattern_matches(pattern, hs[n - 1].address) {
            assert forall|j: int|
                0 <= j < n && pattern_matches(pattern, #[trigger] hs[j].address) implies matching_handlers(
                hs,
                pattern,
                n,
            ).contains(j) by {
                if j < n - 1 {
                    let w = choose|w: int| 0 <= w < prev.len() && prev[w] == j;
                    assert(prev.push(n - 1)[w] == j);
                } else {
                    assert(prev.push(n - 1)[prev.len() as int] == j);
                }
            }
        }
    }
}

/// Each run planned for a message to an address pattern is of a handler
/// whose address the pattern matches, and carries the message's own
/// arguments coerced to that handler's types (the run the handler gets for a
/// message to its exact address); each handler it matches and whose
/// expected number of arguments fits runs exactly once; and the runs follow
/// the order of the handlers.
pub proof fn lemma_pattern_dispatch<H>(hs: Seq<HandlerView<H>>, pattern: Seq<char>, args: Seq<SpecArg>)
    requires
        !is_valid_address(pattern),
        pattern_compiles(pattern),
    ensures
        forall|k: int|
            0 <= k < message_plan(hs, pattern, args).len() ==> {
                let d = #[trigger] message_plan(hs, pattern, args)[k];
                &&& 0 <= d.handler < hs.len()
                &&& pattern_matches(pattern, hs[d.handler].address)
                &&& (args.len() == 0 || args.len() == hs[d.handler].types.len())
                &&& d == run_of(d.handler, args, hs[d.handler].types)
            },
        forall|j: int|
            0 <= j < hs.len() && pattern_matches(pattern, #[trigger] hs[j].address) && (args.len() == 0
                || args.len() == hs[j].types.len()) ==> exists|k: int|
                0 <= k < message_plan(hs, pattern, args).len() && #[trigger] message_plan(
                    hs,
                    pattern,
                    args,
                )[k].handler == j,
        forall|k1: int, k2: int|
            0 <= k1 < k2 < message_plan(hs, pattern, args).len() ==> #[trigger] message_plan(
                hs,
                pattern,
                args,
            )[k1].handler < #[trigger] message_plan(hs, pattern, args)[k2].handler,
{
    let t = matching_handlers(hs, pattern, hs.len());
    lemma_matching_handlers(hs, pattern, hs.len());
    lemma_dispatches_of_targets(hs, t, args);
}

/// The runs for a sequence of target handlers: each is of a target whose
/// expected number of arguments fits, every such target runs, and the runs
/// keep the order of the targets.
proof fn lemma_dispatches_of_targets<H>(hs: Seq<HandlerView<H>>, t: Seq<int>, args: Seq<SpecArg>)
    requires
        forall|k: int| 0 <= k < t.len() ==> 0 <= #[trigger] t[k] < hs.len(),
        forall|k1: int, k2: int| 0 <= k1 < k2 < t.len() ==> #[trigger] t[k1] < #[trigger] t[k2],
    ensures
        forall|k: int|
            0 <= k < dispatches(hs, t, args).len() ==> {
                let d = #[trigger] dispatches(hs, t, args)[k];
                &&& t.contains(d.handler)
                &&& (args.len() == 0 || args.len() == hs[d.handler].types.len())
                &&& d == run_of(d.handler, args, hs[d.handler].types)
            },
        forall|w: int|
            0 <= w < t.len() && (args.len() == 0 || args.len() == hs[#[trigger] t[w]].types.len())
                ==> exists|k: int|
                0 <= k < dispatches(hs, t, args).len() && #[trigger] dispatches(hs, t, args)[k].handler
                    == t[w],
        forall|k1: int, k2: int|
            0 <= k1 < k2 < dispatches(hs, t, args).len() ==> #[trigger] dispatches(hs, t, args)[k1].handler
                < #[trigger] dispatches(hs, t, args)[k2].handler,
        forall|k: int|
            0 <= k < dispatches(hs, t, args).len() && t.len() > 0 ==> #[trigger] dispatches(
                hs,
                t,
                args,
            )[k].handler <= t.last(),
    decreases t.len(),
{
    if t.len() > 0 {
        let prev = t.drop_last();
        lemma_dispatches_of_targets(hs, prev, args);
        let dp = dispatches(hs, prev, args);
        let last = dispatch_for(hs, t.last(), args);
        let all = dispatches(hs, t, args);
        assert(all == dp + last);
        assert forall|k: int| 0 <= k < all.len() implies {
            let d = #[trigger] all[k];
            &&& t.contains(d.handler)
            &&& (args.len() == 0 || args.len() == hs[d.handler].types.len())
            &&& d == run_of(d.handler, args, hs[d.handler].types)
        } by {
            if k < dp.len() {
                assert(all[k] == dp[k]);
                let w = choose|w: int| 0 <= w < prev.len() && prev[w] == dp[k].handler;
                assert(t[w] == prev[w]);
            } else {
                assert(all[k] == last[k - dp.len()]);
                assert(t[t.len() - 1] == t.last());
            }
        }
        assert forall|w: int|
            0 <= w < t.len() && (args.len() == 0 || args.len() == hs[#[trigger] t[w]].types.len())
                implies exists|k: int| 0 <= k < all.len() && #[trigger] all[k].handler == t[w] by {
            if w < t.len() - 1 {
                assert(prev[w] == t[w]);
                let k = choose|k: int| 0 <= k < dp.len() && #[trigger] dp[k].handler == prev[w];
                assert(all[k] == dp[k]);
            } else {
                assert(all[dp.len() as int] == last[0]);
            }
        }
        assert forall|k: int| 0 <= k < all.len() implies #[trigger] all[k].handler <= t.last() by {
            if k < dp.len() {
                assert(all[k] == dp[k]);
                if prev.len() > 0 {
                    assert(prev.last() == t[t.len() - 2]);
                }
            } else {
                assert(all[k] == last[k - dp.len()]);
            }
        }
        assert forall|k1: int, k2: int|
            0 <= k1 < k2 < all.len() implies #[trigger] all[k1].handler < #[trigger] all[k2].handler by {
            if k2 < dp.len() {
                assert(all[k1] == dp[k1]);
                assert(all[k2] == dp[k2]);
            } else if k1 < dp.len() {
                assert(all[k1] == dp[k1]);
                assert(all[k2] == last[k2 - dp.len()]);
                if prev.len() > 0 {
                    assert(prev.last() == t[t.len() - 2]);
                }
            } else {
                assert(last.len() <= 1);
            }
        }
    }
}

/// The runs for two sequences of packets one after the other are the runs
/// for the first followed by those for the second.
pub proof fn lemma_bundle_plan_concat<H>(hs: Seq<HandlerView<H>>, a: Seq<Packet>, b: Seq<Packet>)
    ensures
        bundle_plan(hs, a + b) == bundle_plan(hs, a) + bundle_plan(hs, b),
    decreases b.len(),
{
    if b.len() == 0 {
        assert(a + b =~= a);
        assert(bundle_plan(hs, a) + Seq::<DispatchView>::empty() =~= bundle_plan(hs, a));
    } else {
        lemma_bundle_plan_concat(hs, a, b.drop_last());
        assert((a + b).drop_last() =~= a + b.drop_last());
        assert((a + b).last() == b.last());
        assert(bundle_plan(hs, a) + bundle_plan(hs, b.drop_last()) + packet_plan(hs, b.last())
            =~= bundle_plan(hs, a) + (bundle_plan(hs, b.drop_last()) + packet_plan(hs, b.last())));
    }
}

/// A packet inside a bundle runs the same handlers, with the same
/// arguments, as the packet received on its own; so a bundle of one packet
/// plans what that packet plans, and a message in a bundle keeps its
/// arguments.
pub proof fn lemma_bundle_item_as_alone<H>(hs: Seq<HandlerView<H>>, p: Packet, bundle: Packet)
    requires
        bundle matches Packet::Bundle { content, .. } && content@ == seq![p],
    ensures
        bundle_plan(hs, seq![p]) == packet_plan(hs, p),
        packet_plan(hs, bundle) == packet_plan(hs, p),
        p matches Packet::Message(m) ==> packet_plan(hs, bundle) == message_plan(
            hs,
            m.addr@,
            args_view(m.args@),
        ),
{
    let one = seq![p];
    assert(one.drop_last() =~= Seq::<Packet>::empty());
    assert(bundle_plan(hs, Seq::<Packet>::empty()) + packet_plan(hs, p) =~= packet_plan(hs, p));
}

/// Once a handler is registered at an address, a message to that address
/// runs it (and nothing else) when the message has no arguments or as many
/// as the registered types, with the arguments coerced to those types.
pub proof fn lemma_registered_handler_receives_messages<H>(
    hs: Seq<HandlerView<H>>,
    address: Seq<char>,
    types: Seq<char>,
    callback: H,
    args: Seq<SpecArg>,
)
    requires
        well_formed(hs),
        is_valid_address(address),
        args.len() == 0 || args.len() == types.len(),
    ensures
        ({
            let hs2 = with_handler(hs, address, types, callback);
            let plan = message_plan(hs2, address, args);
            &&& plan.len() == 1
            &&& hs2[plan[0].handler] == (HandlerView { address, types, callback })
            &&& plan[0].args == if coercion_defined(args, types) {
                Some(coerce_all(args, types))
            } else {
                None
            }
        }),
{
    let hs2 = with_handler(hs, address, types, callback);
    lemma_register_then_lookup(hs, address, types, callback, address);
    let i = find_address(hs2, address).unwrap();
    assert(hs2[i] == (HandlerView { address, types, callback }));
    lemma_exact_dispatch(hs2, i, args);
}

} // verus!
