use vstd::prelude::*;

use crate::ime_service::{
    ImeView, InputRoute, create_session, input_target, inject_route, set_visibility,
    set_visibility_from_session, subscribe_visibility, view_wf,
};
use crate::listener_registry::{
    lemma_retain_contains, lemma_retain_none, lemma_retain_subset, retain_spec,
};

verus! {

/// The state after a run of show/hide requests: `values[k]` is the `k`-th value broadcast and
/// `outcomes[k]` the outcomes of sending it.
pub open spec fn visibility_run<V, C>(
    m: ImeView<V, C>,
    values: Seq<bool>,
    outcomes: Seq<Seq<bool>>,
) -> ImeView<V, C>
    decreases values.len(),
{
    if values.len() == 0 {
        m
    } else {
        set_visibility(
            visibility_run(m, values.drop_last(), outcomes),
            values.last(),
            outcomes[values.len() - 1],
        )
    }
}

/// A visibility listener that is still registered after a run of show/hide requests was
/// registered when each of them was broadcast, so it was sent every value of the run, in
/// order, with none left out; and the flag holds the last value of the run.
pub proof fn lemma_visibility_no_gaps<V, C>(
    m: ImeView<V, C>,
    values: Seq<bool>,
    outcomes: Seq<Seq<bool>>,
    listener: V,
)
    ensures
        visibility_run(m, values, outcomes).visibility_listeners.contains(listener) ==> forall|
            k: int,
        |
            0 <= k < values.len() ==> #[trigger] visibility_run(
                m,
                values.take(k),
                outcomes,
            ).visibility_listeners.contains(listener),
        values.len() > 0 ==> visibility_run(m, values, outcomes).visible == values.last(),
    decreases values.len(),
{
    if values.len() > 0 {
        let n = values.len() - 1;
        let prev = values.drop_last();
        assert(values.take(n) =~= prev);
        lemma_visibility_no_gaps(m, prev, outcomes, listener);
        let before = visibility_run(m, prev, outcomes);
        lemma_retain_subset(before.visibility_listeners, outcomes[n], listener);
        assert forall|k: int| 0 <= k < n implies #[trigger] values.take(k) == prev.take(k) by {
            assert(values.take(k) =~= prev.take(k));
        }
    }
}

/// A visibility subscriber that was sent the current value successfully is registered, and so
/// is sent the next broadcast value; one whose send failed is not registered by that call.
pub proof fn lemma_visibility_subscribe<V, C>(m: ImeView<V, C>, listener: V, delivered: bool)
    ensures
        delivered ==> subscribe_visibility(m, listener, delivered).visibility_listeners.contains(
            listener,
        ),
        !delivered ==> subscribe_visibility(m, listener, delivered) == m,
{
    if delivered {
        let s = m.visibility_listeners.push(listener);
        assert(s[s.len() - 1] == listener);
    }
}

/// A listener that appears once in the registry and whose send fails is gone after that
/// broadcast: it sees no later value.
pub proof fn lemma_visibility_failed_send_drops<V, C>(
    m: ImeView<V, C>,
    visible: bool,
    delivered: Seq<bool>,
    i: int,
)
    requires
        delivered.len() == m.visibility_listeners.len(),
        0 <= i < m.visibility_listeners.len(),
        !delivered[i],
        forall|j: int|
            0 <= j < m.visibility_listeners.len() && j != i ==> m.visibility_listeners[j]
                != m.visibility_listeners[i],
    ensures
        !set_visibility(m, visible, delivered).visibility_listeners.contains(
            m.visibility_listeners[i],
        ),
{
    lemma_retain_contains(m.visibility_listeners, delivered, m.visibility_listeners[i]);
}

/// The session that an event was routed to.
pub open spec fn routed_session(r: InputRoute) -> Option<u64> {
    match r {
        InputRoute::Dropped => None,
        InputRoute::Listeners { session } => Some(session),
        InputRoute::Default { session } => Some(session),
    }
}

/// After two sessions were created one after the other, key events go to the second one, never
/// to the first, whatever the context listeners do.
pub proof fn lemma_create_session_supersedes<V, C>(
    m: ImeView<V, C>,
    first_delivered: Seq<bool>,
    second_delivered: Seq<bool>,
    input_delivered: Seq<bool>,
)
    requires
        view_wf(m),
        m.next_id + 2 <= u64::MAX,
    ensures
        ({
            let first = m.next_id;
            let m1 = create_session(m, first_delivered);
            let second = m1.next_id;
            let m2 = create_session(m1, second_delivered);
            &&& view_wf(m2)
            &&& first != second
            &&& input_target(m2, true) == Some(second)
            &&& routed_session(inject_route(m2, true, input_delivered)) == Some(second)
        }),
{
}

/// Some context listener took the event: its send succeeded.
pub open spec fn some_delivered(delivered: Seq<bool>, n: int) -> bool {
    exists|i: int| 0 <= i < n && delivered[i]
}

/// With an active session, a key event goes to the session's default editing exactly when no
/// context listener is left after its delivery: never while one took it, always when there
/// was none or every one of them failed on this very event.
pub proof fn lemma_input_priority<V, C>(m: ImeView<V, C>, delivered: Seq<bool>, session: u64)
    requires
        m.active == Some(session),
        delivered.len() == m.context_listeners.len(),
    ensures
        some_delivered(delivered, m.context_listeners.len() as int) ==> (inject_route(
            m,
            true,
            delivered,
        ) == (InputRoute::Listeners { session })),
        !some_delivered(delivered, m.context_listeners.len() as int) ==> (inject_route(
            m,
            true,
            delivered,
        ) == (InputRoute::Default { session })),
{
    let s = m.context_listeners;
    let r = retain_spec(s, delivered);
    if some_delivered(delivered, s.len() as int) {
        let i = choose|i: int| 0 <= i < s.len() && delivered[i];
        lemma_retain_contains(s, delivered, s[i]);
        assert(r.len() > 0);
    } else {
        lemma_retain_none(s, delivered);
    }
}

/// A session superseded by a later one cannot change the keyboard flag, nor anything else.
pub proof fn lemma_superseded_session_cannot_set_visibility<V, C>(
    m: ImeView<V, C>,
    first_delivered: Seq<bool>,
    second_delivered: Seq<bool>,
    visible: bool,
    delivered: Seq<bool>,
)
    requires
        view_wf(m),
        m.next_id + 2 <= u64::MAX,
    ensures
        ({
            let first = m.next_id;
            let m2 = create_session(create_session(m, first_delivered), second_delivered);
            &&& set_visibility_from_session(m2, first, visible, delivered) == m2
            &&& set_visibility_from_session(m2, first, visible, delivered).visible == m2.visible
        }),
{
}

/// Subscribing the same always-reachable handle twice registers it twice, and both
/// registrations stay through any broadcast that reaches them.
pub proof fn lemma_double_subscribe<V, C>(m: ImeView<V, C>, listener: V, visible: bool, delivered: Seq<bool>)
    requires
        delivered.len() == m.visibility_listeners.len() + 2,
        delivered[m.visibility_listeners.len() as int],
        delivered[m.visibility_listeners.len() + 1int],
    ensures
        ({
            let m2 = subscribe_visibility(subscribe_visibility(m, listener, true), listener, true);
            let after = set_visibility(m2, visible, delivered);
            &&& m2.visibility_listeners == m.visibility_listeners.push(listener).push(listener)
            &&& after.visibility_listeners == retain_spec(m.visibility_listeners, delivered).push(
                listener,
            ).push(listener)
        }),
{
    let s = m.visibility_listeners;
    let s2 = s.push(listener).push(listener);
    assert(s2.drop_last() =~= s.push(listener));
    assert(s.push(listener).drop_last() =~= s);
    assert(retain_spec(s.push(listener), delivered) == retain_spec(s, delivered).push(listener));
    assert(retain_spec(s2, delivered) == retain_spec(s.push(listener), delivered).push(listener));
}

} // verus!
