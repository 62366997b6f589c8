//! An OSC server library: argument values and their coercion to the types a
//! handler expects, handler registration and the dispatch of received
//! packets to handlers, the answer a handler prepares, the decisions of the
//! server thread, and the library version.
mod address;
mod capi;
mod datagram;
mod message;
mod osc_type;
mod registry;
mod serve_loop;
mod server_state;
mod text;
mod version;

pub use address::{Address, AddressPattern};
pub use capi::{registration_result, ApiResult};
pub use message::{Message, OscAnswer, Packet, SocketAddress};
pub use osc_type::{
    char_to_osc_type, coerce_arguments, coercion_is_defined, copy_arg, is_tag_char,
    osc_type_to_char, osctype_coerce, osctype_is_coercible, osctype_is_numerical, type_tags, unsupported_arguments,
    Coerced, FloatCast, OscArg, OscColor, OscMidiMessage, OscTime,
};
pub use registry::{Dispatch, Handler, Registry, RegistryError};
pub use server_state::ServerState;
pub use serve_loop::{next_action, LoopAction, ReceiveOutcome};
pub use version::{library_version, parse_version};
pub use rosc;
