//! What holds of every run of the reactor.
//!
//! A run is a sequence of turns: in each the reactor is handed one input,
//! moves to its next state and answers with actions. The laws below are
//! stated over runs of the mathematical reactor.

use vstd::prelude::*;
use crate::address::{Address, AddressV4, AddressV6, Error};
use crate::client::LookupView;
use crate::connection::{
    ActionView, ConnectionView, EventSet, MessageView, RequestView, StopReason, Token,
    open_interest, open_options,
};
use crate::reactor::ReactorView;
use crate::table::no_entries;
use crate::url::{HostView, UrlView};

verus! {

/// What a reactor can be handed.
pub enum Input {
    /// A message from the channel.
    Notify { msg: MessageView },
    /// The outcome of opening a connection.
    Opened { token: Token, registered: bool },
    /// A readiness event.
    Ready { token: Token, events: EventSet },
}

/// One turn of a run: the input, the state it led to and the actions that
/// answered it.
pub struct Turn {
    pub input: Input,
    pub post: ReactorView,
    pub actions: Seq<ActionView>,
}

/// Whether `input` may lead from `pre` to `post` with `actions`. A readiness
/// event that the reactor acts on is only ever for a connection in flight.
pub open spec fn step(
    pre: ReactorView,
    input: Input,
    post: ReactorView,
    actions: Seq<ActionView>,
) -> bool {
    match input {
        Input::Notify { msg } => pre.notify_step(msg, post, actions),
        Input::Opened { token, registered } => {
            &&& post == pre.after_opened(token, registered)
            &&& actions == pre.opened_actions(token, registered)
        },
        Input::Ready { token, events } => {
            &&& pre.touches(events) ==> pre.conns.contains_key(token)
            &&& post == pre.after_ready(token, events)
            &&& actions == pre.ready_actions(token, events)
        },
    }
}

/// The state a run has reached.
pub open spec fn end_of(start: ReactorView, turns: Seq<Turn>) -> ReactorView {
    if turns.len() == 0 {
        start
    } else {
        turns.last().post
    }
}

/// Whether `turns` is a run from `start`: every turn is a step from the state
/// that the turns before it reached.
pub open spec fn run(start: ReactorView, turns: Seq<Turn>) -> bool
    decreases turns.len(),
{
    turns.len() == 0 || {
        &&& run(start, turns.drop_last())
        &&& step(
            end_of(start, turns.drop_last()),
            turns.last().input,
            turns.last().post,
            turns.last().actions,
        )
    }
}

/// The number of connections that the actions order to be opened.
pub open spec fn opens_in(actions: Seq<ActionView>) -> nat
    decreases actions.len(),
{
    if actions.len() == 0 {
        0
    } else {
        opens_in(actions.drop_last()) + if actions.last() is Open {
            1nat
        } else {
            0nat
        }
    }
}

/// The number of connections that the actions complete, which is the number
/// of callbacks they have called.
pub open spec fn completions_in(actions: Seq<ActionView>) -> nat
    decreases actions.len(),
{
    if actions.len() == 0 {
        0
    } else {
        completions_in(actions.drop_last()) + if actions.last() is Complete {
            1nat
        } else {
            0nat
        }
    }
}

/// The number of connections opened over a run.
pub open spec fn opened_over(turns: Seq<Turn>) -> nat
    decreases turns.len(),
{
    if turns.len() == 0 {
        0
    } else {
        opened_over(turns.drop_last()) + opens_in(turns.last().actions)
    }
}

/// The number of connections completed over a run.
pub open spec fn completed_over(turns: Seq<Turn>) -> nat
    decreases turns.len(),
{
    if turns.len() == 0 {
        0
    } else {
        completed_over(turns.drop_last()) + completions_in(turns.last().actions)
    }
}

/// Tokens are never aliased: no two tokens in use lead to the same
/// connection, and every connection records the token it lives under, so
/// the tokens in use and the connections in flight correspond one to one.
pub proof fn lemma_tokens_not_aliased(r: ReactorView)
    requires
        r.inv(),
    ensures
        r.conns.is_injective(),
        forall|t: Token| #[trigger] r.conns.contains_key(t) ==> r.conns[t].token == t,
{
    assert forall|a: Token, b: Token|
        a != b && r.conns.dom().contains(a) && r.conns.dom().contains(b) implies #[trigger] r.conns[a]
        != #[trigger] r.conns[b] by {
        assert(r.conns.contains_key(a));
        assert(r.conns.contains_key(b));
    }
}

/// Every step keeps the invariant.
pub proof fn lemma_step_keeps_inv(
    pre: ReactorView,
    input: Input,
    post: ReactorView,
    actions: Seq<ActionView>,
)
    requires
        pre.inv(),
        step(pre, input, post, actions),
    ensures
        post.inv(),
{
    match input {
        Input::Notify { msg } => {},
        Input::Opened { token, registered } => {
            if pre.running && registered && pre.conns.contains_key(token) {
                assert(post.conns.dom() =~= pre.conns.dom());
            }
        },
        Input::Ready { token, events } => {
            assert(pre.after_write(token, events).dom() =~= pre.conns.dom());
        },
    }
}

/// Every run keeps the invariant, so that at every instant of a run tokens
/// are not aliased.
pub proof fn lemma_run_keeps_inv(start: ReactorView, turns: Seq<Turn>)
    requires
        start.inv(),
        run(start, turns),
    ensures
        end_of(start, turns).inv(),
    decreases turns.len(),
{
    if turns.len() > 0 {
        lemma_run_keeps_inv(start, turns.drop_last());
        lemma_step_keeps_inv(
            end_of(start, turns.drop_last()),
            turns.last().input,
            turns.last().post,
            turns.last().actions,
        );
    }
}

/// A connection is completed only by a readable event for its token, only
/// while it is in flight, and leaves the table in the same step: it cannot
/// be completed a second time.
pub proof fn lemma_completion_takes_out(
    pre: ReactorView,
    input: Input,
    post: ReactorView,
    actions: Seq<ActionView>,
    i: int,
)
    requires
        pre.inv(),
        step(pre, input, post, actions),
        0 <= i < actions.len(),
        actions[i] is Complete,
    ensures
        input matches Input::Ready { token, events } && events.readable
            && actions[i]->connection.token == token && pre.conns.contains_key(token)
            && actions[i]->connection.url == pre.conns[token].url && !post.conns.contains_key(
            token,
        ),
{
}

/// A readable event for a connection in flight completes exactly that
/// connection, exactly once.
pub proof fn lemma_readable_completes(pre: ReactorView, token: Token, events: EventSet)
    requires
        pre.inv(),
        pre.touches(events),
        events.readable,
        pre.conns.contains_key(token),
    ensures
        completions_in(pre.ready_actions(token, events)) == 1,
        pre.ready_actions(token, events).last() matches ActionView::Complete { connection }
            && connection.token == token && connection.url == pre.conns[token].url,
        !pre.after_ready(token, events).conns.contains_key(token),
{
    let acts = pre.ready_actions(token, events);
    reveal_with_fuel(completions_in, 3);
    if events.writable {
        assert(acts.drop_last().drop_last() =~= Seq::<ActionView>::empty());
    } else {
        assert(acts.drop_last() =~= Seq::<ActionView>::empty());
    }
}

/// While the reactor runs, a step opens as many connections as it adds to
/// those in flight and completes.
pub proof fn lemma_step_accounts(
    pre: ReactorView,
    input: Input,
    post: ReactorView,
    actions: Seq<ActionView>,
)
    requires
        pre.inv(),
        step(pre, input, post, actions),
        post.running,
    ensures
        pre.running,
        pre.conns.dom().len() + opens_in(actions) == post.conns.dom().len() + completions_in(
            actions,
        ),
{
    reveal_with_fuel(completions_in, 3);
    reveal_with_fuel(opens_in, 3);
    match input {
        Input::Notify { msg } => {
            match msg {
                MessageView::Shutdown => {},
                MessageView::Req(request) => {
                    assert(actions.drop_last() =~= Seq::<ActionView>::empty());
                },
            }
        },
        Input::Opened { token, registered } => {
            if pre.conns.contains_key(token) {
                assert(post.conns.dom() =~= pre.conns.dom());
            }
        },
        Input::Ready { token, events } => {
            assert(pre.after_write(token, events).dom() =~= pre.conns.dom());
            if pre.conns.contains_key(token) {
                if events.writable && events.readable {
                    assert(actions.drop_last().drop_last() =~= Seq::<ActionView>::empty());
                } else if events.writable || events.readable {
                    assert(actions.drop_last() =~= Seq::<ActionView>::empty());
                }
            }
        },
    }
}

/// Over a run that has not stopped, every connection that was opened was
/// either completed exactly once or is still in flight: the connections in
/// flight at the start and those opened since are as many as those in flight
/// at the end and those completed since.
pub proof fn lemma_run_accounts(start: ReactorView, turns: Seq<Turn>)
    requires
        start.inv(),
        run(start, turns),
        end_of(start, turns).running,
    ensures
        start.conns.dom().len() + opened_over(turns) == end_of(start, turns).conns.dom().len()
            + completed_over(turns),
    decreases turns.len(),
{
    if turns.len() > 0 {
        let before = turns.drop_last();
        lemma_run_keeps_inv(start, before);
        lemma_step_accounts(
            end_of(start, before),
            turns.last().input,
            turns.last().post,
            turns.last().actions,
        );
        lemma_run_accounts(start, before);
    }
}

/// Submitting requests to a fresh reactor and letting every one of them
/// complete calls as many callbacks as there were requests taken in: over a
/// run that starts and ends with nothing in flight, and has not stopped, the
/// completions are as many as the connections opened.
pub proof fn lemma_all_opened_complete(start: ReactorView, turns: Seq<Turn>)
    requires
        start.inv(),
        run(start, turns),
        end_of(start, turns).running,
        start.conns == no_entries(),
        end_of(start, turns).conns == no_entries(),
    ensures
        completed_over(turns) == opened_over(turns),
{
    lemma_run_accounts(start, turns);
}

/// A step that orders the event loop to stop leaves the reactor stopped,
/// with nothing in flight.
pub proof fn lemma_stop_halts(
    pre: ReactorView,
    input: Input,
    post: ReactorView,
    actions: Seq<ActionView>,
    i: int,
)
    requires
        step(pre, input, post, actions),
        0 <= i < actions.len(),
        actions[i] is Stop,
    ensures
        !post.running,
        post.conns == no_entries(),
{
}

/// The number of times the actions order the event loop to stop.
pub open spec fn stops_in(actions: Seq<ActionView>) -> nat
    decreases actions.len(),
{
    if actions.len() == 0 {
        0
    } else {
        stops_in(actions.drop_last()) + if actions.last() is Stop {
            1nat
        } else {
            0nat
        }
    }
}

/// The number of times the event loop was ordered to stop over a run.
pub open spec fn stopped_over(turns: Seq<Turn>) -> nat
    decreases turns.len(),
{
    if turns.len() == 0 {
        0
    } else {
        stopped_over(turns.drop_last()) + stops_in(turns.last().actions)
    }
}

/// A reactor that has processed a shutdown has stopped and holds nothing.
/// The message is answered with the order to stop and with nothing else:
/// nothing is opened and nothing completed. A reactor that had stopped
/// before gave that order then, and does not give it again.
pub proof fn lemma_shutdown_stops(pre: ReactorView, post: ReactorView, actions: Seq<ActionView>)
    requires
        pre.inv(),
        pre.notify_step(MessageView::Shutdown, post, actions),
    ensures
        !post.running,
        post.conns == no_entries(),
        actions == if pre.running {
            seq![ActionView::Stop { reason: StopReason::Requested }]
        } else {
            Seq::<ActionView>::empty()
        },
        stops_in(actions) == if pre.running {
            1nat
        } else {
            0nat
        },
        opens_in(actions) == 0,
        completions_in(actions) == 0,
{
    reveal_with_fuel(completions_in, 2);
    reveal_with_fuel(opens_in, 2);
    reveal_with_fuel(stops_in, 2);
    if pre.running {
        assert(actions.drop_last() =~= Seq::<ActionView>::empty());
    }
}

/// A step orders the event loop to stop exactly when it stops the reactor,
/// and then once; a stopped reactor never runs again.
pub proof fn lemma_step_stops_once(
    pre: ReactorView,
    input: Input,
    post: ReactorView,
    actions: Seq<ActionView>,
)
    requires
        step(pre, input, post, actions),
    ensures
        !pre.running ==> !post.running,
        stops_in(actions) == if pre.running && !post.running {
            1nat
        } else {
            0nat
        },
{
    reveal_with_fuel(stops_in, 3);
    match input {
        Input::Notify { msg } => {
            if pre.running {
                assert(actions.drop_last() =~= Seq::<ActionView>::empty());
            }
        },
        Input::Opened { token, registered } => {
            if pre.running && !registered {
                assert(actions.drop_last() =~= Seq::<ActionView>::empty());
            }
        },
        Input::Ready { token, events } => {
            if pre.running && events.hup {
                assert(actions.drop_last() =~= Seq::<ActionView>::empty());
            } else if pre.running && pre.conns.contains_key(token) {
                if events.writable && events.readable {
                    assert(actions.drop_last().drop_last() =~= Seq::<ActionView>::empty());
                } else if events.writable || events.readable {
                    assert(actions.drop_last() =~= Seq::<ActionView>::empty());
                }
            }
        },
    }
}

/// Over any run the event loop is ordered to stop at most once: once where
/// the run began running and ended stopped, never otherwise.
pub proof fn lemma_run_stops_once(start: ReactorView, turns: Seq<Turn>)
    requires
        run(start, turns),
    ensures
        !start.running ==> !end_of(start, turns).running,
        stopped_over(turns) == if start.running && !end_of(start, turns).running {
            1nat
        } else {
            0nat
        },
    decreases turns.len(),
{
    if turns.len() > 0 {
        let before = turns.drop_last();
        lemma_run_stops_once(start, before);
        lemma_step_stops_once(
            end_of(start, before),
            turns.last().input,
            turns.last().post,
            turns.last().actions,
        );
    }
}

/// A stopped reactor answers every input with no action and stays as it is.
pub proof fn lemma_stopped_is_silent(
    pre: ReactorView,
    input: Input,
    post: ReactorView,
    actions: Seq<ActionView>,
)
    requires
        !pre.running,
        step(pre, input, post, actions),
    ensures
        post == pre,
        actions.len() == 0,
{
}

/// Once the reactor has stopped, no turn of a run has any action: no
/// further callback is called, whatever arrives, and the state stays as it is.
pub proof fn lemma_no_action_after_stop(start: ReactorView, turns: Seq<Turn>)
    requires
        !start.running,
        run(start, turns),
    ensures
        end_of(start, turns) == start,
        completed_over(turns) == 0,
        forall|i: int| 0 <= i < turns.len() ==> (#[trigger] turns[i]).actions.len() == 0,
    decreases turns.len(),
{
    if turns.len() > 0 {
        let before = turns.drop_last();
        lemma_no_action_after_stop(start, before);
        lemma_stopped_is_silent(
            end_of(start, before),
            turns.last().input,
            turns.last().post,
            turns.last().actions,
        );
        assert(completions_in(turns.last().actions) == 0);
        assert forall|i: int| 0 <= i < turns.len() implies (#[trigger] turns[i]).actions.len()
            == 0 by {
            if i < before.len() {
                assert(turns[i] == before[i]);
            }
        }
    }
}

/// A request that arrives at a running reactor with room is stored under a
/// token that was not in use: the new connection records that token and the
/// request's URL, every connection that was in flight stays as it was under
/// its token, and the reactor is ordered to open exactly this connection at
/// the request's address.
pub proof fn lemma_accepted_request_is_stored(
    pre: ReactorView,
    request: RequestView,
    post: ReactorView,
    actions: Seq<ActionView>,
)
    requires
        pre.inv(),
        pre.running,
        pre.has_room(),
        pre.notify_step(MessageView::Req(request), post, actions),
    ensures
        post.inv(),
        post.running,
        actions == seq![
            ActionView::Open {
                token: token_opened(actions),
                addr: request.addr,
                interest: open_interest(),
                options: open_options(),
            },
        ],
        !pre.conns.contains_key(token_opened(actions)),
        post.conns == pre.conns.insert(
            token_opened(actions),
            ConnectionView::opened(token_opened(actions), request),
        ),
        post.conns[token_opened(actions)].token == token_opened(actions),
        post.conns[token_opened(actions)].url == request.url,
        forall|t: Token| #[trigger]
            pre.conns.contains_key(t) ==> post.conns.contains_key(t) && post.conns[t]
                == pre.conns[t],
        post.conns.dom().len() == pre.conns.dom().len() + 1,
{
    lemma_step_keeps_inv(pre, Input::Notify { msg: MessageView::Req(request) }, post, actions);
    assert(actions =~= seq![actions[0]]);
}

/// The token of the connection that the first of the actions orders to open.
pub open spec fn token_opened(actions: Seq<ActionView>) -> Token {
    actions[0]->Open_token
}

/// Whether the turns are the requests, one message each, in their order.
pub open spec fn requests_in_order(turns: Seq<Turn>, requests: Seq<RequestView>) -> bool {
    &&& turns.len() == requests.len()
    &&& forall|i: int|
        0 <= i < turns.len() ==> (#[trigger] turns[i]).input == (Input::Notify {
            msg: MessageView::Req(requests[i]),
        })
}

/// Requests that arrive one after another at a running reactor with room
/// for all of them are all taken in: each is answered with the order to open
/// one connection at its address, under a token of its own, and at the end
/// every one of them is in flight under that token with its URL.
pub proof fn lemma_requests_are_all_taken_in(
    start: ReactorView,
    turns: Seq<Turn>,
    requests: Seq<RequestView>,
)
    requires
        start.inv(),
        start.running,
        run(start, turns),
        requests_in_order(turns, requests),
        start.conns.dom().len() + requests.len() <= start.limit,
    ensures
        end_of(start, turns).running,
        end_of(start, turns).limit == start.limit,
        end_of(start, turns).conns.dom().len() == start.conns.dom().len() + requests.len(),
        opened_over(turns) == requests.len(),
        completed_over(turns) == 0,
        forall|t: Token| #[trigger]
            start.conns.contains_key(t) ==> end_of(start, turns).conns.contains_key(t)
                && end_of(start, turns).conns[t] == start.conns[t],
        forall|i: int|
            0 <= i < turns.len() ==> {
                let token = token_opened((#[trigger] turns[i]).actions);
                &&& turns[i].actions == seq![
                    ActionView::Open {
                        token,
                        addr: requests[i].addr,
                        interest: open_interest(),
                        options: open_options(),
                    },
                ]
                &&& !start.conns.contains_key(token)
                &&& end_of(start, turns).conns.contains_key(token)
                &&& end_of(start, turns).conns[token] == ConnectionView::opened(token, requests[i])
            },
        forall|i: int, j: int|
            0 <= i < j < turns.len() ==> token_opened((#[trigger] turns[i]).actions)
                != token_opened((#[trigger] turns[j]).actions),
    decreases turns.len(),
{
    reveal_with_fuel(opens_in, 2);
    reveal_with_fuel(completions_in, 2);
    if turns.len() > 0 {
        let before = turns.drop_last();
        let earlier = requests.drop_last();
        let last = turns.last();
        assert forall|i: int| 0 <= i < before.len() implies (#[trigger] before[i]).input == (
        Input::Notify { msg: MessageView::Req(earlier[i]) }) by {
            assert(before[i] == turns[i]);
        }
        lemma_run_keeps_inv(start, before);
        lemma_requests_are_all_taken_in(start, before, earlier);
        let mid = end_of(start, before);
        assert(last.input == Input::Notify { msg: MessageView::Req(requests.last()) });
        lemma_accepted_request_is_stored(mid, requests.last(), last.post, last.actions);
        let fresh = token_opened(last.actions);
        assert(last.actions.drop_last() =~= Seq::<ActionView>::empty());
        assert forall|i: int| 0 <= i < turns.len() implies {
            let token = token_opened((#[trigger] turns[i]).actions);
            &&& turns[i].actions == seq![
                ActionView::Open {
                    token,
                    addr: requests[i].addr,
                    interest: open_interest(),
                    options: open_options(),
                },
            ]
            &&& !start.conns.contains_key(token)
            &&& end_of(start, turns).conns.contains_key(token)
            &&& end_of(start, turns).conns[token] == ConnectionView::opened(token, requests[i])
        } by {
            if i < before.len() {
                assert(turns[i] == before[i]);
                assert(mid.conns.contains_key(token_opened(before[i].actions)));
            }
        }
        assert forall|i: int, j: int| 0 <= i < j < turns.len() implies token_opened(
            (#[trigger] turns[i]).actions,
        ) != token_opened((#[trigger] turns[j]).actions) by {
            assert(turns[i] == before[i]);
            assert(mid.conns.contains_key(token_opened(before[i].actions)));
            if j < before.len() {
                assert(turns[j] == before[j]);
            }
        }
    }
}

/// Whether the input is a readable event, without a hang-up, for `token`.
pub open spec fn is_read_of(input: Input, token: Token) -> bool {
    input matches Input::Ready { token: t, events } && t == token && events.readable
        && !events.hup
}

/// Whether the last of the actions completes the connection of `token`
/// that was opened for `url`.
pub open spec fn ends_completing(actions: Seq<ActionView>, token: Token, url: UrlView) -> bool {
    &&& actions.len() > 0
    &&& actions.last() matches ActionView::Complete { connection }
    &&& connection.token == token
    &&& connection.url == url
}

/// Whether the turns are readable events without a hang-up, one for each
/// token of `order`, in that order.
pub open spec fn reads_in_order(turns: Seq<Turn>, order: Seq<Token>) -> bool {
    &&& turns.len() == order.len()
    &&& forall|i: int| 0 <= i < turns.len() ==> is_read_of((#[trigger] turns[i]).input, order[i])
}

/// Readable events for connections in flight, one for each of them and in
/// any order, complete every one of them: each event is answered with
/// exactly one completion, that of the connection under the event's token
/// with the URL it was opened for, so the completions come in the order of
/// the events and what each of them carries does not depend on that order.
/// What was in flight under another token stays so, and where the events
/// were for all connections nothing is in flight at the end.
pub proof fn lemma_readable_events_complete_all(
    start: ReactorView,
    turns: Seq<Turn>,
    order: Seq<Token>,
)
    requires
        start.inv(),
        start.running,
        run(start, turns),
        reads_in_order(turns, order),
        order.no_duplicates(),
        forall|i: int| 0 <= i < order.len() ==> start.conns.contains_key(#[trigger] order[i]),
    ensures
        end_of(start, turns).running,
        forall|t: Token| #[trigger]
            end_of(start, turns).conns.contains_key(t) <==> start.conns.contains_key(t)
                && !order.contains(t),
        forall|t: Token| #[trigger]
            end_of(start, turns).conns.contains_key(t) ==> end_of(start, turns).conns[t]
                == start.conns[t],
        completed_over(turns) == order.len(),
        opened_over(turns) == 0,
        forall|i: int|
            0 <= i < turns.len() ==> completions_in((#[trigger] turns[i]).actions) == 1
                && ends_completing(turns[i].actions, order[i], start.conns[order[i]].url),
        (forall|t: Token| #[trigger] start.conns.contains_key(t) ==> order.contains(t))
            ==> end_of(start, turns).conns == no_entries(),
    decreases turns.len(),
{
    if turns.len() > 0 {
        let before = turns.drop_last();
        let earlier = order.drop_last();
        let last = turns.last();
        let token = order.last();
        assert forall|i: int| 0 <= i < before.len() implies is_read_of(
            (#[trigger] before[i]).input,
            earlier[i],
        ) by {
            assert(before[i] == turns[i]);
        }
        assert forall|i: int| 0 <= i < earlier.len() implies start.conns.contains_key(
            #[trigger] earlier[i],
        ) by {
            assert(earlier[i] == order[i]);
        }
        lemma_run_keeps_inv(start, before);
        lemma_readable_events_complete_all(start, before, earlier);
        let mid = end_of(start, before);
        assert(!earlier.contains(token)) by {
            if earlier.contains(token) {
                let j = choose|j: int| 0 <= j < earlier.len() && earlier[j] == token;
                assert(order[j] == order[order.len() - 1]);
            }
        }
        assert(order[order.len() - 1] == token);
        assert(start.conns.contains_key(token));
        assert(mid.conns.contains_key(token));
        assert(is_read_of(last.input, token));
        let events = last.input->Ready_events;
        assert(last.input == Input::Ready { token, events });
        lemma_readable_completes(mid, token, events);
        lemma_step_accounts(mid, last.input, last.post, last.actions);
        assert(mid.after_write(token, events).dom() =~= mid.conns.dom());
        assert forall|t: Token| #[trigger]
            end_of(start, turns).conns.contains_key(t) <==> start.conns.contains_key(t)
                && !order.contains(t) by {
            if order.contains(t) {
                let j = choose|j: int| 0 <= j < order.len() && order[j] == t;
                if j < earlier.len() {
                    assert(earlier[j] == t);
                }
            }
            if earlier.contains(t) {
                let j = choose|j: int| 0 <= j < earlier.len() && earlier[j] == t;
                assert(order[j] == t);
            }
        }
        assert forall|i: int| 0 <= i < turns.len() implies completions_in(
            (#[trigger] turns[i]).actions,
        ) == 1 && ends_completing(turns[i].actions, order[i], start.conns[order[i]].url) by {
            if i < before.len() {
                assert(turns[i] == before[i]);
                assert(earlier[i] == order[i]);
            }
        }
        if forall|t: Token| #[trigger] start.conns.contains_key(t) ==> order.contains(t) {
            assert(end_of(start, turns).conns =~= no_entries());
        }
    } else {
        if forall|t: Token| #[trigger] start.conns.contains_key(t) ==> order.contains(t) {
            assert(start.conns =~= no_entries());
        }
    }
}

/// One call of `get` as mathematical values: what parsing made of its text
/// and what the lookup gave for its host.
pub struct Submission {
    pub parsed: Option<UrlView>,
    pub candidates: Seq<Address>,
}

/// What one call of `get` has to send: the outcome of its two steps.
pub open spec fn submitted(call: Submission) -> Result<MessageView, Error> {
    match LookupView::begun(call.parsed) {
        Ok(lookup) => lookup.finished(call.candidates),
        Err(e) => Err(e),
    }
}

/// What the calls of `get` have to send, call by call.
pub open spec fn all_submitted(calls: Seq<Submission>) -> Seq<Result<MessageView, Error>> {
    calls.map_values(|call: Submission| submitted(call))
}

/// The address a call's request has to go to, where there is one: the
/// address written in the URL, else the first address that its domain (or
/// `localhost`, for a URL without a host) resolved to, under the URL's port
/// or 80.
pub open spec fn destination(url: UrlView, candidates: Seq<Address>) -> Option<Address> {
    match url.host {
        Some(HostView::V4(ip)) => Some(Address::V4(AddressV4 { ip, port: url.lookup_port() })),
        Some(HostView::V6(ip)) => Some(
            Address::V6(AddressV6 { ip, port: url.lookup_port(), flowinfo: 0, scope_id: 0 }),
        ),
        _ => if candidates.len() > 0 {
            Some(candidates[0].spec_with_port(url.lookup_port()))
        } else {
            None
        },
    }
}

/// A call of `get` gives exactly one request, with the parsed URL and the
/// address of the URL's own host, where the text parses and its host has an
/// address; where the text does not parse it gives the parse error, and
/// where a host name resolved to nothing the resolution error, and no
/// message.
pub proof fn lemma_get_gives_one_request(call: Submission)
    ensures
        submitted(call) == (match call.parsed {
            None => Err::<MessageView, Error>(Error::UrlParse),
            Some(url) => match destination(url, call.candidates) {
                Some(addr) => Ok(MessageView::Req(RequestView { url, addr })),
                None => Err(Error::Resolution),
            },
        }),
{
}

/// Calls of `get`, each with a text that parses and a host that has an
/// address, give as many requests as there are calls, one for each call and
/// in the order of the calls, each with the URL and the address of its own
/// call.
pub proof fn lemma_gets_give_their_requests(calls: Seq<Submission>)
    requires
        forall|i: int|
            0 <= i < calls.len() ==> (#[trigger] calls[i]).parsed is Some && destination(
                calls[i].parsed->0,
                calls[i].candidates,
            ) is Some,
    ensures
        all_submitted(calls).len() == calls.len(),
        forall|i: int|
            0 <= i < calls.len() ==> (#[trigger] all_submitted(calls)[i]) == Ok::<
                MessageView,
                Error,
            >(
                MessageView::Req(
                    RequestView {
                        url: calls[i].parsed->0,
                        addr: destination(calls[i].parsed->0, calls[i].candidates)->0,
                    },
                ),
            ),
{
    assert forall|i: int| 0 <= i < calls.len() implies (#[trigger] all_submitted(calls)[i]) == Ok::<
        MessageView,
        Error,
    >(
        MessageView::Req(
            RequestView {
                url: calls[i].parsed->0,
                addr: destination(calls[i].parsed->0, calls[i].candidates)->0,
            },
        ),
    ) by {
        lemma_get_gives_one_request(calls[i]);
    }
}

} // verus!
