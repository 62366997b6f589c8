//! The state a server shares with its thread: its handlers, its error
//! handler, the handle of its thread, and whether a stop was requested.
use crate::registry::{with_handler, HandlerView, Registry, RegistryError};
use crate::address::is_valid_address;
use vstd::prelude::*;

verus! {

/// The state of a server: handlers, error handler `E`, and thread handle `T`.
pub struct ServerState<H, E, T> {
    handlers: Registry<H>,
    error_handler: Option<E>,
    thread_handle: Option<T>,
    stop: bool,
}

/// The content of a [`ServerState`].
pub struct ServerStateView<H, E, T> {
    pub handlers: Seq<HandlerView<H>>,
    pub error_handler: Option<E>,
    pub thread_handle: Option<T>,
    pub stop: bool,
}

impl<H, E, T> View for ServerState<H, E, T> {
    type V = ServerStateView<H, E, T>;

    closed spec fn view(&self) -> ServerStateView<H, E, T> {
        ServerStateView {
            handlers: self.handlers@,
            error_handler: self.error_handler,
            thread_handle: self.thread_handle,
            stop: self.stop,
        }
    }
}

impl<H, E, T> ServerState<H, E, T> {
    /// A server with no handler, no error handler, no thread, and no stop
    /// requested.
    pub fn new() -> (r: Self)
        ensures
            r@ == (ServerStateView::<H, E, T> {
                handlers: Seq::empty(),
                error_handler: None,
                thread_handle: None,
                stop: false,
            }),
    {
        ServerState { handlers: Registry::new(), error_handler: None, thread_handle: None, stop: false }
    }

    /// The handlers.
    pub fn handlers(&self) -> (r: &Registry<H>)
        ensures
            r@ == self@.handlers,
    {
        &self.handlers
    }

    /// Registers `callback` for the arguments typed `types` at the address
    /// `path` (see [`Registry::register`]); nothing else changes.
    pub fn register_handler(&mut self, path: &str, types: &str, callback: H) -> (r: Result<
        (),
        RegistryError,
    >)
        ensures
            r is Ok <==> is_valid_address(path@),
            r is Ok ==> final(self)@ == (ServerStateView {
                handlers: with_handler(old(self)@.handlers, path@, types@, callback),
                ..old(self)@
            }),
            r is Err ==> final(self)@ == old(self)@,
    {
        self.handlers.register(path, types, callback)
    }

    /// Registers the error handler, replacing any earlier one.
    pub fn register_error_handler(&mut self, handler: E)
        ensures
            final(self)@ == (ServerStateView { error_handler: Some(handler), ..old(self)@ }),
    {
        self.error_handler = Some(handler);
    }

    /// The error handler, if one is registered.
    pub fn error_handler(&self) -> (r: Option<&E>)
        ensures
            r matches Some(e) ==> self@.error_handler == Some(*e),
            r is None ==> self@.error_handler is None,
    {
        match &self.error_handler {
            Some(e) => Some(e),
            None => None,
        }
    }

    /// Keeps the handle of a started thread.
    pub fn set_thread(&mut self, handle: T)
        ensures
            final(self)@ == (ServerStateView { thread_handle: Some(handle), ..old(self)@ }),
    {
        self.thread_handle = Some(handle);
    }

    /// Whether a stop was requested.
    pub fn stop_requested(&self) -> (r: bool)
        ensures
            r == self@.stop,
    {
        self.stop
    }

    /// Requests the thread to stop, and hands out its handle so that it can
    /// be joined.
    pub fn request_stop(&mut self) -> (r: Option<T>)
        ensures
            r == old(self)@.thread_handle,
            final(self)@ == (ServerStateView { stop: true, thread_handle: None, ..old(self)@ }),
    {
        self.stop = true;
        let mut handle: Option<T> = None;
        std::mem::swap(&mut handle, &mut self.thread_handle);
        handle
    }

    /// Withdraws the stop request once the thread has ended, so that a
    /// thread can be started again.
    pub fn clear_stop(&mut self)
        ensures
            final(self)@ == (ServerStateView { stop: false, ..old(self)@ }),
    {
        self.stop = false;
    }
}

/// Stopping the thread (requesting the stop, then withdrawing it once the
/// thread ended) leaves a server that can be started again: no stop pending,
/// no thread, the same handlers and error handler.
pub proof fn lemma_stop_then_restartable<H, E, T>(s: ServerStateView<H, E, T>)
    ensures
        ({
            let stopped = ServerStateView { stop: true, thread_handle: None, ..s };
            let cleared = ServerStateView { stop: false, ..stopped };
            &&& !cleared.stop
            &&& cleared.thread_handle is None
            &&& cleared.handlers == s.handlers
            &&& cleared.error_handler == s.error_handler
        }),
{
}

} // verus!
