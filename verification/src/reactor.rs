//! The reactor: what the event loop's handler decides.
//!
//! The reactor owns the connection table. It is told of every message that
//! arrives on the channel, of the outcome of every connect it asked for, and
//! of every readiness event; it answers each with the actions to perform.
//! Once it has stopped it answers nothing any more.

use vstd::prelude::*;
use crate::connection::{
    Action, ActionView, Connection, ConnectionView, EventSet, Message, MessageView, Phase,
    PollOpt, RequestHead, RequestHeadView, RequestView, StopReason, Token, action_views,
    open_interest, open_options,
};
use crate::table::{ConnectionTable, MAX_SLOTS, growth_step, no_entries};

verus! {

/// The number of slots a reactor's table starts with.
pub const INITIAL_SLOTS: usize = 128;

/// The reactor as mathematical values: the connections in flight under
/// their tokens, the table's capacity and limit, and whether it still runs.
pub struct ReactorView {
    pub conns: Map<Token, ConnectionView>,
    pub capacity: usize,
    pub limit: usize,
    pub running: bool,
}

impl ReactorView {
    /// What holds of every reactor: the connections are finitely many and
    /// fit the capacity, which is within the limit; every connection records
    /// the token it lives under; a stopped reactor holds no connection.
    pub open spec fn inv(self) -> bool {
        &&& self.conns.dom().finite()
        &&& self.conns.dom().len() <= self.capacity <= self.limit <= MAX_SLOTS
        &&& forall|t: Token| #[trigger] self.conns.contains_key(t) ==> self.conns[t].token == t
        &&& !self.running ==> self.conns == no_entries()
    }

    /// The reactor after it has stopped: every connection is dropped.
    pub open spec fn halted(self) -> ReactorView {
        ReactorView { conns: no_entries(), running: false, ..self }
    }

    /// Whether one more connection fits, if need be after growing.
    pub open spec fn has_room(self) -> bool {
        self.conns.dom().len() < self.limit
    }

    /// The capacity once one more connection has been taken in.
    pub open spec fn capacity_with_one_more(self) -> usize {
        if self.conns.dom().len() < self.capacity {
            self.capacity
        } else {
            (self.capacity + growth_step(self.capacity, self.limit)) as usize
        }
    }

    /// The reactor after a request was given the slot `token`.
    pub open spec fn accepted(self, token: Token, request: RequestView) -> ReactorView {
        ReactorView {
            conns: self.conns.insert(token, ConnectionView::opened(token, request)),
            capacity: self.capacity_with_one_more(),
            ..self
        }
    }

    /// Whether a message may lead from `self` to `post` with `actions`.
    ///
    /// A stopped reactor ignores the message. A shutdown stops the reactor.
    /// A request is given a slot not in use and answered with the order to
    /// open its connection; where the table is full at its limit the reactor
    /// stops instead.
    pub open spec fn notify_step(
        self,
        msg: MessageView,
        post: ReactorView,
        actions: Seq<ActionView>,
    ) -> bool {
        if !self.running {
            post == self && actions == Seq::<ActionView>::empty()
        } else {
            match msg {
                MessageView::Shutdown => {
                    &&& post == self.halted()
                    &&& actions == seq![ActionView::Stop { reason: StopReason::Requested }]
                },
                MessageView::Req(request) => {
                    if self.has_room() {
                        &&& actions.len() == 1
                        &&& actions[0] matches ActionView::Open { token, addr, interest, options }
                        &&& !self.conns.contains_key(token)
                        &&& addr == request.addr
                        &&& interest == open_interest()
                        &&& options == open_options()
                        &&& post == self.accepted(token, request)
                    } else {
                        &&& post == self.halted()
                        &&& actions == seq![ActionView::Stop { reason: StopReason::TableFull }]
                    }
                },
            }
        }
    }

    /// The reactor after the outcome of opening `token`'s connection is
    /// known. Success moves a connection that is still connecting on to
    /// await writability; failure stops the reactor.
    pub open spec fn after_opened(self, token: Token, registered: bool) -> ReactorView {
        if !self.running {
            self
        } else if !registered {
            self.halted()
        } else if self.conns.contains_key(token) && self.conns[token].phase == Phase::Connecting {
            ReactorView {
                conns: self.conns.insert(
                    token,
                    self.conns[token].in_phase(Phase::AwaitingWritable),
                ),
                ..self
            }
        } else {
            self
        }
    }

    /// The actions that answer the outcome of opening a connection.
    pub open spec fn opened_actions(self, token: Token, registered: bool) -> Seq<ActionView> {
        if self.running && !registered {
            seq![ActionView::Stop { reason: StopReason::OpenFailed }]
        } else {
            Seq::empty()
        }
    }

    /// Whether a readiness event is one the reactor acts on for a connection.
    pub open spec fn touches(self, events: EventSet) -> bool {
        self.running && !events.hup && (events.writable || events.readable)
    }

    /// The connections after the write phase of a readiness event.
    pub open spec fn after_write(self, token: Token, events: EventSet) -> Map<
        Token,
        ConnectionView,
    > {
        if events.writable && self.conns.contains_key(token) {
            self.conns.insert(token, self.conns[token].in_phase(Phase::AwaitingReadable))
        } else {
            self.conns
        }
    }

    /// The reactor after a readiness event. A hang-up stops the reactor.
    /// Else writability moves the connection on to await its response, and
    /// readability, looked at after that, takes the connection out of the
    /// table.
    pub open spec fn after_ready(self, token: Token, events: EventSet) -> ReactorView {
        if !self.running {
            self
        } else if events.hup {
            self.halted()
        } else if events.readable {
            ReactorView { conns: self.after_write(token, events).remove(token), ..self }
        } else {
            ReactorView { conns: self.after_write(token, events), ..self }
        }
    }

    /// The actions that answer a readiness event: for a hang-up the stop;
    /// else for writability the request head to send, then for readability
    /// the completion of the connection as the write phase left it.
    pub open spec fn ready_actions(self, token: Token, events: EventSet) -> Seq<ActionView> {
        if !self.running {
            Seq::empty()
        } else if events.hup {
            seq![ActionView::Stop { reason: StopReason::HangUp }]
        } else if !self.conns.contains_key(token) {
            Seq::empty()
        } else {
            let send = if events.writable {
                seq![
                    ActionView::SendRequest {
                        token,
                        head: RequestHeadView::get(self.conns[token].url),
                    },
                ]
            } else {
                Seq::empty()
            };
            let complete = if events.readable {
                seq![ActionView::Complete { connection: self.after_write(token, events)[token] }]
            } else {
                Seq::empty()
            };
            send + complete
        }
    }
}

/// The reactor.
pub struct Reactor {
    conns: ConnectionTable,
    running: bool,
}

impl View for Reactor {
    type V = ReactorView;

    closed spec fn view(&self) -> ReactorView {
        ReactorView {
            conns: self.conns@,
            capacity: self.conns.spec_capacity(),
            limit: self.conns.spec_limit(),
            running: self.running,
        }
    }
}

impl Reactor {
    /// The reactor's invariant.
    pub closed spec fn wf(&self) -> bool {
        &&& self.conns.wf()
        &&& !self.running ==> self.conns@ == no_entries()
    }

    /// A well-formed reactor's view satisfies the invariant of views.
    pub proof fn lemma_wf(&self)
        requires
            self.wf(),
        ensures
            self@.inv(),
    {
        self.conns.lemma_wf();
    }

    /// A running reactor with an empty table of `initial` slots that grows
    /// up to `limit` slots.
    pub fn with_capacity(initial: usize, limit: usize) -> (reactor: Reactor)
        requires
            initial <= limit <= MAX_SLOTS,
        ensures
            reactor.wf(),
            reactor@ == (ReactorView {
                conns: no_entries(),
                capacity: initial,
                limit,
                running: true,
            }),
    {
        Reactor { conns: ConnectionTable::new(initial, limit), running: true }
    }

    /// A running reactor with an empty table of 128 slots that grows as far
    /// as a table can.
    pub fn new() -> (reactor: Reactor)
        ensures
            reactor.wf(),
            reactor@ == (ReactorView {
                conns: no_entries(),
                capacity: INITIAL_SLOTS,
                limit: MAX_SLOTS,
                running: true,
            }),
    {
        Reactor::with_capacity(INITIAL_SLOTS, MAX_SLOTS)
    }

    /// Whether the reactor still runs.
    pub fn is_running(&self) -> (b: bool)
        ensures
            b == self@.running,
    {
        self.running
    }

    /// The number of connections in flight.
    pub fn in_flight(&self) -> (n: usize)
        requires
            self.wf(),
        ensures
            n == self@.conns.dom().len(),
    {
        self.conns.len()
    }

    /// The connection in flight under `token`, if any.
    pub fn find_connection_by_token(&self, token: Token) -> (r: Option<&Connection>)
        requires
            self.wf(),
        ensures
            match r {
                Some(c) => self@.conns.contains_key(token) && c@ == self@.conns[token],
                None => !self@.conns.contains_key(token),
            },
    {
        self.conns.get(token)
    }

    /// Whether a readiness event for `token` can be handed to `ready`.
    pub fn expects(&self, token: Token, events: EventSet) -> (b: bool)
        requires
            self.wf(),
        ensures
            b == (self@.touches(events) ==> self@.conns.contains_key(token)),
    {
        if self.running && !events.hup && (events.writable || events.readable) {
            self.conns.contains(token)
        } else {
            true
        }
    }

    fn halt(&mut self)
        requires
            old(self).wf(),
        ensures
            final(self).wf(),
            final(self)@ == old(self)@.halted(),
    {
        self.conns.clear();
        self.running = false;
    }

    /// Handles a message from the channel.
    pub fn notify(&mut self, msg: Message) -> (actions: Vec<Action>)
        requires
            old(self).wf(),
        ensures
            final(self).wf(),
            old(self)@.notify_step(msg@, final(self)@, action_views(actions@)),
    {
        let mut actions: Vec<Action> = Vec::new();
        if !self.running {
            assert(action_views(actions@) == Seq::<ActionView>::empty());
            return actions;
        }
        match msg {
            Message::Shutdown => {
                self.halt();
                actions.push(Action::Stop { reason: StopReason::Requested });
                assert(action_views(actions@) == seq![
                    ActionView::Stop { reason: StopReason::Requested },
                ]);
            },
            Message::Req(request) => {
                let addr = request.addr;
                match self.conns.insert(request) {
                    Some(token) => {
                        actions.push(
                            Action::Open {
                                token,
                                addr,
                                interest: EventSet {
                                    readable: true,
                                    writable: true,
                                    error: false,
                                    hup: false,
                                },
                                options: PollOpt { edge: true, level: false, oneshot: true },
                            },
                        );
                    },
                    None => {
                        self.halt();
                        actions.push(Action::Stop { reason: StopReason::TableFull });
                        assert(action_views(actions@) == seq![
                            ActionView::Stop { reason: StopReason::TableFull },
                        ]);
                    },
                }
            },
        }
        actions
    }

    /// Handles the outcome of an `Open` action: whether the connect was
    /// started and the socket registered.
    pub fn opened(&mut self, token: Token, registered: bool) -> (actions: Vec<Action>)
        requires
            old(self).wf(),
        ensures
            final(self).wf(),
            final(self)@ == old(self)@.after_opened(token, registered),
            action_views(actions@) == old(self)@.opened_actions(token, registered),
    {
        let mut actions: Vec<Action> = Vec::new();
        if !self.running {
            assert(action_views(actions@) == Seq::<ActionView>::empty());
            return actions;
        }
        if !registered {
            self.halt();
            actions.push(Action::Stop { reason: StopReason::OpenFailed });
            assert(action_views(actions@) == seq![
                ActionView::Stop { reason: StopReason::OpenFailed },
            ]);
            return actions;
        }
        let connecting = match self.conns.get(token) {
            Some(c) => match c.phase {
                Phase::Connecting => true,
                _ => false,
            },
            None => false,
        };
        if connecting {
            self.conns.set_phase(token, Phase::AwaitingWritable);
        }
        assert(action_views(actions@) == Seq::<ActionView>::empty());
        actions
    }

    /// Handles a readiness event of the socket registered under `token`.
    ///
    /// An event that the reactor acts on must be for a connection in flight.
    pub fn ready(&mut self, token: Token, events: EventSet) -> (actions: Vec<Action>)
        requires
            old(self).wf(),
            old(self)@.touches(events) ==> old(self)@.conns.contains_key(token),
        ensures
            final(self).wf(),
            final(self)@ == old(self)@.after_ready(token, events),
            action_views(actions@) == old(self)@.ready_actions(token, events),
    {
        let mut actions: Vec<Action> = Vec::new();
        if !self.running {
            assert(action_views(actions@) == Seq::<ActionView>::empty());
            return actions;
        }
        if events.hup {
            self.halt();
            actions.push(Action::Stop { reason: StopReason::HangUp });
            assert(action_views(actions@) == seq![
                ActionView::Stop { reason: StopReason::HangUp },
            ]);
            return actions;
        }
        if events.writable {
            match self.conns.get(token) {
                Some(c) => {
                    let head = RequestHead::get(&c.url);
                    actions.push(Action::SendRequest { token, head });
                },
                None => {},
            }
            self.conns.set_phase(token, Phase::AwaitingReadable);
        }
        if events.readable {
            match self.conns.remove(token) {
                Some(connection) => {
                    actions.push(Action::Complete { connection });
                },
                None => {},
            }
        }
        assert(action_views(actions@) =~= old(self)@.ready_actions(token, events));
        assert(final(self)@.conns =~= old(self)@.after_ready(token, events).conns);
        actions
    }
}

} // verus!
