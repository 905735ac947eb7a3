use vstd::prelude::*;

use crate::listener_registry::{ListenerRegistry, retain_spec};

verus! {

/// The phase of a key event.
#[derive(Clone, Copy, Debug, PartialEq, Eq)]
pub enum KeyboardEventPhase {
    Pressed,
    Released,
    Cancelled,
    Repeat,
}

/// A key event, as plain values.
#[derive(Clone, Copy, Debug, PartialEq, Eq)]
pub struct KeyboardEvent {
    pub event_time: u64,
    pub device_id: u32,
    pub phase: KeyboardEventPhase,
    pub hid_usage: u32,
    pub code_point: u32,
    pub modifiers: u32,
}

/// An input event handed to the service. Only key events take part in session routing.
#[derive(Clone, Copy, Debug, PartialEq, Eq)]
pub enum InputEvent {
    Keyboard(KeyboardEvent),
    Pointer,
    Focus,
}

impl InputEvent {
    pub open spec fn is_keyboard_spec(&self) -> bool {
        self is Keyboard
    }

    #[verifier::when_used_as_spec(is_keyboard_spec)]
    pub fn is_keyboard(&self) -> (r: bool)
        ensures
            r == self.is_keyboard_spec(),
    {
        match self {
            InputEvent::Keyboard(_) => true,
            _ => false,
        }
    }
}

/// What became of an injected event.
#[derive(Clone, Copy, Debug, PartialEq, Eq)]
pub enum InputRoute {
    /// Not a key event, or no live session: nobody sees it.
    Dropped,
    /// The session was notified and at least one context listener took the event.
    Listeners { session: u64 },
    /// The session was notified and no context listener survived the delivery: the session's
    /// default editing handles the event.
    Default { session: u64 },
}

/// The mathematical state of the service.
///
/// Sessions are named by a generation number: `next_id` is the number the next session gets,
/// and `active` is the live session that input and visibility requests are routed to.
pub ghost struct ImeView<V, C> {
    pub visible: bool,
    pub active: Option<u64>,
    pub next_id: u64,
    pub visibility_listeners: Seq<V>,
    pub context_listeners: Seq<C>,
}

pub open spec fn view_wf<V, C>(m: ImeView<V, C>) -> bool {
    m.active matches Some(a) ==> a < m.next_id
}

pub open spec fn initial_view<V, C>() -> ImeView<V, C> {
    ImeView {
        visible: false,
        active: None,
        next_id: 0,
        visibility_listeners: Seq::empty(),
        context_listeners: Seq::empty(),
    }
}

/// The flag takes the new value, which was sent to every visibility listener; those whose send
/// failed are dropped.
pub open spec fn set_visibility<V, C>(m: ImeView<V, C>, visible: bool, delivered: Seq<bool>) -> ImeView<V, C> {
    ImeView {
        visible,
        visibility_listeners: retain_spec(m.visibility_listeners, delivered),
        ..m
    }
}

pub open spec fn session_is_active<V, C>(m: ImeView<V, C>, session: u64) -> bool {
    m.active == Some(session)
}

/// A session's own visibility request counts only while it is the active one.
pub open spec fn set_visibility_from_session<V, C>(
    m: ImeView<V, C>,
    session: u64,
    visible: bool,
    delivered: Seq<bool>,
) -> ImeView<V, C> {
    if session_is_active(m, session) {
        set_visibility(m, visible, delivered)
    } else {
        m
    }
}

/// A new session supersedes the active one; each context listener was offered a text field of
/// the new session and those whose push failed are dropped.
pub open spec fn create_session<V, C>(m: ImeView<V, C>, delivered: Seq<bool>) -> ImeView<V, C> {
    ImeView {
        active: Some(m.next_id),
        next_id: (m.next_id + 1) as u64,
        context_listeners: retain_spec(m.context_listeners, delivered),
        ..m
    }
}

/// The owner of a session let it go: if it was the active one, no session is active.
pub open spec fn close_session<V, C>(m: ImeView<V, C>, session: u64) -> ImeView<V, C> {
    if session_is_active(m, session) {
        ImeView { active: None, ..m }
    } else {
        m
    }
}

/// The session an event is forwarded to, if any.
pub open spec fn input_target<V, C>(m: ImeView<V, C>, is_keyboard: bool) -> Option<u64> {
    if is_keyboard {
        m.active
    } else {
        None
    }
}

/// The state after an event was injected; `delivered` holds the outcomes of sending it to the
/// context listeners, and counts only where the event had a target.
pub open spec fn inject<V, C>(m: ImeView<V, C>, is_keyboard: bool, delivered: Seq<bool>) -> ImeView<V, C> {
    if input_target(m, is_keyboard) is Some {
        ImeView { context_listeners: retain_spec(m.context_listeners, delivered), ..m }
    } else {
        m
    }
}

/// Where an injected event goes: default handling exactly when no context listener is left
/// after this very delivery.
pub open spec fn inject_route<V, C>(m: ImeView<V, C>, is_keyboard: bool, delivered: Seq<bool>) -> InputRoute {
    match input_target(m, is_keyboard) {
        None => InputRoute::Dropped,
        Some(session) => if retain_spec(m.context_listeners, delivered).len() == 0 {
            InputRoute::Default { session }
        } else {
            InputRoute::Listeners { session }
        },
    }
}

/// A visibility subscriber is registered only if the current value reached it.
pub open spec fn subscribe_visibility<V, C>(m: ImeView<V, C>, listener: V, delivered: bool) -> ImeView<V, C> {
    if delivered {
        ImeView { visibility_listeners: m.visibility_listeners.push(listener), ..m }
    } else {
        m
    }
}

/// A context subscriber is registered whatever became of its first focus push.
pub open spec fn subscribe_context<V, C>(m: ImeView<V, C>, listener: C) -> ImeView<V, C> {
    ImeView { context_listeners: m.context_listeners.push(listener), ..m }
}

/// The state shared by all connections of the service: the keyboard flag, the active session
/// and the two listener registries.
pub struct ImeServiceState<V, C> {
    keyboard_visible: bool,
    active_ime: Option<u64>,
    next_ime: u64,
    visibility_listeners: ListenerRegistry<V>,
    /// Input methods that want to edit text: each is offered a text field of every newly
    /// focused session, and sees every routed key event.
    text_input_context_clients: ListenerRegistry<C>,
}

impl<V, C> View for ImeServiceState<V, C> {
    type V = ImeView<V, C>;

    closed spec fn view(&self) -> ImeView<V, C> {
        ImeView {
            visible: self.keyboard_visible,
            active: self.active_ime,
            next_id: self.next_ime,
            visibility_listeners: self.visibility_listeners@,
            context_listeners: self.text_input_context_clients@,
        }
    }
}

impl<V, C> ImeServiceState<V, C> {
    pub open spec fn wf(&self) -> bool {
        view_wf(self@)
    }

    /// Sets the flag and drops each visibility listener whose send of `visible` failed.
    pub fn update_keyboard_visibility(&mut self, visible: bool, delivered: &Vec<bool>)
        requires
            delivered@.len() == old(self)@.visibility_listeners.len(),
        ensures
            final(self)@ == set_visibility(old(self)@, visible, delivered@),
    {
        self.keyboard_visible = visible;
        self.visibility_listeners.retain_delivered(delivered);
    }
}

/// The service that creates a session for each newly focused text field, routes key events
/// between the active session and the context listeners, and tells visibility listeners when
/// the keyboard is to be shown or hidden.
///
/// It decides and keeps the state; the caller owns the handles and the sessions, performs the
/// sends, and hands the outcomes back (`delivered[i]` for the `i`-th listener, in the order of
/// the registry at the time of the call).
pub struct ImeService<V, C> {
    state: ImeServiceState<V, C>,
}

impl<V, C> View for ImeService<V, C> {
    type V = ImeView<V, C>;

    closed spec fn view(&self) -> ImeView<V, C> {
        self.state@
    }
}

impl<V, C> ImeService<V, C> {
    pub open spec fn wf(&self) -> bool {
        view_wf(self@)
    }

    pub fn new() -> (r: Self)
        ensures
            r@ == initial_view::<V, C>(),
            r.wf(),
    {
        ImeService {
            state: ImeServiceState {
                keyboard_visible: false,
                active_ime: None,
                next_ime: 0,
                visibility_listeners: ListenerRegistry::new(),
                text_input_context_clients: ListenerRegistry::new(),
            },
        }
    }

    pub fn keyboard_visible(&self) -> (r: bool)
        ensures
            r == self@.visible,
    {
        self.state.keyboard_visible
    }

    /// The live session that input is routed to, if any.
    pub fn active_ime(&self) -> (r: Option<u64>)
        ensures
            r == self@.active,
    {
        self.state.active_ime
    }

    /// The number the next session will get.
    pub fn next_ime(&self) -> (r: u64)
        ensures
            r == self@.next_id,
    {
        self.state.next_ime
    }

    pub fn is_active(&self, session: u64) -> (r: bool)
        ensures
            r == session_is_active(self@, session),
    {
        match self.state.active_ime {
            Some(a) => a == session,
            None => false,
        }
    }

    /// The visibility listeners, in registration order.
    pub fn visibility_listeners(&self) -> (r: &Vec<V>)
        ensures
            r@ == self@.visibility_listeners,
    {
        self.state.visibility_listeners.items()
    }

    /// The context listeners, in registration order.
    pub fn text_input_context_clients(&self) -> (r: &Vec<C>)
        ensures
            r@ == self@.context_listeners,
    {
        self.state.text_input_context_clients.items()
    }

    /// Service-level request: the keyboard is shown, whoever asks.
    pub fn show_keyboard(&mut self, delivered: &Vec<bool>)
        requires
            delivered@.len() == old(self)@.visibility_listeners.len(),
        ensures
            final(self)@ == set_visibility(old(self)@, true, delivered@),
    {
        self.state.update_keyboard_visibility(true, delivered);
    }

    /// Service-level request: the keyboard is hidden, whoever asks.
    pub fn hide_keyboard(&mut self, delivered: &Vec<bool>)
        requires
            delivered@.len() == old(self)@.visibility_listeners.len(),
        ensures
            final(self)@ == set_visibility(old(self)@, false, delivered@),
    {
        self.state.update_keyboard_visibility(false, delivered);
    }

    /// A session asks for the keyboard to be shown or hidden. Only the active session is heard;
    /// the result says whether it was. `delivered` counts only when it was.
    pub fn update_keyboard_visibility_from_ime(
        &mut self,
        session: u64,
        visible: bool,
        delivered: &Vec<bool>,
    ) -> (applied: bool)
        requires
            session_is_active(old(self)@, session) ==> delivered@.len()
                == old(self)@.visibility_listeners.len(),
        ensures
            applied == session_is_active(old(self)@, session),
            final(self)@ == set_visibility_from_session(old(self)@, session, visible, delivered@),
    {
        if self.is_active(session) {
            self.state.update_keyboard_visibility(visible, delivered);
            true
        } else {
            false
        }
    }

    /// A new session for a newly focused text field: it becomes the active one, superseding the
    /// previous one without telling it. `delivered` holds the outcomes of offering each context
    /// listener a text field of the new session. Returns the new session's number, which no
    /// earlier session had.
    pub fn get_input_method_editor(&mut self, delivered: &Vec<bool>) -> (session: u64)
        requires
            old(self).wf(),
            old(self)@.next_id < u64::MAX,
            delivered@.len() == old(self)@.context_listeners.len(),
        ensures
            final(self).wf(),
            session == old(self)@.next_id,
            final(self)@ == create_session(old(self)@, delivered@),
    {
        let session = self.state.next_ime;
        self.state.next_ime = session + 1;
        self.state.active_ime = Some(session);
        self.state.text_input_context_clients.retain_delivered(delivered);
        session
    }

    /// The owner of `session` let it go; if it was the active one, input is dropped from now on
    /// until a new session comes.
    pub fn close_ime(&mut self, session: u64)
        requires
            old(self).wf(),
        ensures
            final(self).wf(),
            final(self)@ == close_session(old(self)@, session),
    {
        if self.is_active(session) {
            self.state.active_ime = None;
        }
    }

    /// The session that `event` is to be forwarded to, if any: the active one, for a key event.
    /// The caller forwards the event to it and sends it to each context listener before
    /// `inject_input`.
    pub fn input_target(&self, event: &InputEvent) -> (r: Option<u64>)
        ensures
            r == input_target(self@, event.is_keyboard()),
    {
        if event.is_keyboard() {
            self.state.active_ime
        } else {
            None
        }
    }

    /// Routes an injected event. `delivered` holds the outcomes of sending it to the context
    /// listeners and counts only where `input_target` gave a session. Default editing is chosen
    /// exactly when no context listener is left after this delivery.
    pub fn inject_input(&mut self, event: &InputEvent, delivered: &Vec<bool>) -> (r: InputRoute)
        requires
            input_target(old(self)@, event.is_keyboard()) is Some ==> delivered@.len()
                == old(self)@.context_listeners.len(),
        ensures
            final(self)@ == inject(old(self)@, event.is_keyboard(), delivered@),
            r == inject_route(old(self)@, event.is_keyboard(), delivered@),
    {
        match self.input_target(event) {
            None => InputRoute::Dropped,
            Some(session) => {
                self.state.text_input_context_clients.retain_delivered(delivered);
                if self.state.text_input_context_clients.is_empty() {
                    InputRoute::Default { session }
                } else {
                    InputRoute::Listeners { session }
                }
            },
        }
    }

    /// A new visibility subscriber, which the caller has sent the current value to
    /// (`keyboard_visible`). It is registered only if that send succeeded.
    pub fn bind_ime_visibility_service(&mut self, listener: V, delivered: bool)
        ensures
            final(self)@ == subscribe_visibility(old(self)@, listener, delivered),
    {
        if delivered {
            self.state.visibility_listeners.push(listener);
        }
    }

    /// A new context subscriber. If a session is active the caller offers it a text field of
    /// that session first; it is registered whatever became of that offer.
    pub fn bind_text_input_context(&mut self, listener: C)
        ensures
            final(self)@ == subscribe_context(old(self)@, listener),
    {
        self.state.text_input_context_clients.push(listener);
    }
}

} // verus!
