//! The connection table: a slot arena that hands out tokens.

use vstd::prelude::*;
use crate::connection::{Connection, ConnectionView, Phase, Request, Token};

verus! {

/// The slab of `mio` that stores the connections, indexed by `mio::Token`
/// from 0. Nothing of it is visible to the verifier but the two names below.
#[verifier::external_body]
pub struct Slots {
    inner: mio::util::Slab<Connection>,
}

/// The most slots a table may have. Within it the table's storage stays far
/// below the size at which a vector refuses to allocate, on 32-bit targets
/// too.
pub const MAX_SLOTS: usize = 0x10_0000;

/// The filled slots of a slab: the connection stored under each index in use.
pub uninterp spec fn slab_entries(slots: Slots) -> Map<Token, ConnectionView>;

/// A slab with every slot free.
pub open spec fn no_entries() -> Map<Token, ConnectionView> {
    Map::empty()
}

/// The number of slots, filled or free, that a slab was made with or grown to.
pub uninterp spec fn slab_slots(slots: Slots) -> usize;

/// `Slab::new_starting_at` with offset `Token(0)`: a slab of `slots` free slots.
/// It computes `slots + 1` and allocates all slots at once, hence the bound.
#[verifier::external_body]
fn slab_new(slots: usize) -> (s: Slots)
    requires
        slots <= MAX_SLOTS,
    ensures
        slab_entries(s) == no_entries(),
        slab_slots(s) == slots,
{
    Slots { inner: mio::util::Slab::new_starting_at(mio::Token(0), slots) }
}

/// `Slab::insert_with`: where a slot is free, the slab picks one, has the
/// connection built for that slot's index, stores it there and returns the
/// index; where every slot is filled it returns `None`, changes nothing and
/// the request is dropped. The slab keeps its free slots in a list, so a
/// slot is free exactly when fewer connections are stored than there are
/// slots; which free slot is picked is left open here.
#[verifier::external_body]
fn slab_insert_with(slots: &mut Slots, request: Request) -> (r: Option<Token>)
    ensures
        slab_slots(*final(slots)) == slab_slots(*old(slots)),
        match r {
            Some(token) => {
                &&& token.0 < slab_slots(*old(slots))
                &&& !slab_entries(*old(slots)).contains_key(token)
                &&& slab_entries(*final(slots)) == slab_entries(*old(slots)).insert(
                    token,
                    ConnectionView::opened(token, request@),
                )
            },
            None => {
                &&& slab_entries(*final(slots)) == slab_entries(*old(slots))
                &&& slab_entries(*old(slots)).dom().finite() ==> slab_entries(
                    *old(slots),
                ).dom().len() >= slab_slots(*old(slots))
            },
        },
{
    slots.inner.insert_with(move |t| Connection::opened(Token(t.as_usize()), request)).map(
        |t| Token(t.as_usize()),
    )
}

/// `Slab::remove` on a filled slot: frees the slot and returns the
/// connection that was stored there. On a free slot the slab's `remove`
/// overwrites the slot's link in the list of free slots, so only filled slots
/// are admitted. The slab indexes its storage with any index below the
/// storage's allocated capacity, hence the bound to the slots it really has.
#[verifier::external_body]
fn slab_remove(slots: &mut Slots, token: Token) -> (r: Option<Connection>)
    requires
        token.0 < slab_slots(*old(slots)),
        slab_entries(*old(slots)).contains_key(token),
    ensures
        slab_slots(*final(slots)) == slab_slots(*old(slots)),
        slab_entries(*final(slots)) == slab_entries(*old(slots)).remove(token),
        r matches Some(c) && c@ == slab_entries(*old(slots))[token],
{
    slots.inner.remove(mio::Token(token.0))
}

/// `Slab::get`: the connection stored in a slot, or `None` where the slot is
/// free. Bounded as `slab_remove` is.
#[verifier::external_body]
fn slab_get(slots: &Slots, token: Token) -> (r: Option<&Connection>)
    requires
        token.0 < slab_slots(*slots),
    ensures
        match r {
            Some(c) => slab_entries(*slots).contains_key(token) && c@ == slab_entries(
                *slots,
            )[token],
            None => !slab_entries(*slots).contains_key(token),
        },
{
    slots.inner.get(mio::Token(token.0))
}

/// Indexing a slab mutably (`IndexMut`, which is `Slab::get_mut` and panics on
/// a free slot): the connection stored in a filled slot, to be changed in
/// place. The slot holds whatever the connection is when the borrow ends.
#[verifier::external_body]
fn slab_index_mut(slots: &mut Slots, token: Token) -> (c: &mut Connection)
    requires
        token.0 < slab_slots(*old(slots)),
        slab_entries(*old(slots)).contains_key(token),
    ensures
        c@ == slab_entries(*old(slots))[token],
        slab_slots(*final(slots)) == slab_slots(*old(slots)),
        slab_entries(*final(slots)) == slab_entries(*old(slots)).insert(token, final(c)@),
{
    &mut slots.inner[mio::Token(token.0)]
}

/// `Slab::grow`: adds `extra` free slots and keeps what is stored. It
/// computes the old number of slots plus one plus `extra` and extends the
/// storage by `extra` slots, hence the bound.
#[verifier::external_body]
fn slab_grow(slots: &mut Slots, extra: usize)
    requires
        slab_slots(*old(slots)) + extra <= MAX_SLOTS,
    ensures
        slab_slots(*final(slots)) == slab_slots(*old(slots)) + extra,
        slab_entries(*final(slots)) == slab_entries(*old(slots)),
{
    slots.inner.grow(extra)
}

/// `Slab::clear`: frees every slot.
#[verifier::external_body]
fn slab_clear(slots: &mut Slots)
    ensures
        slab_slots(*final(slots)) == slab_slots(*old(slots)),
        slab_entries(*final(slots)) == no_entries(),
{
    slots.inner.clear()
}

/// The number of slots by which a full table of `capacity` slots grows: as
/// many as it has (one where it has none), as far as `limit` allows.
pub open spec fn growth_step(capacity: usize, limit: usize) -> usize {
    if capacity >= limit {
        0
    } else if capacity == 0 {
        1
    } else if limit - capacity < capacity {
        (limit - capacity) as usize
    } else {
        capacity
    }
}

/// The table of in-flight connections. Each connection lives in a slot and is
/// found by the slot's token; a token is given out again only after its slot
/// was freed. The table starts with a number of slots and grows when full,
/// up to a limit fixed at its making.
pub struct ConnectionTable {
    slots: Slots,
    capacity: usize,
    limit: usize,
    live: usize,
}

impl View for ConnectionTable {
    type V = Map<Token, ConnectionView>;

    closed spec fn view(&self) -> Map<Token, ConnectionView> {
        slab_entries(self.slots)
    }
}

impl ConnectionTable {
    /// The number of slots the table has now, filled or free.
    pub closed spec fn spec_capacity(&self) -> usize {
        self.capacity
    }

    /// The number of slots beyond which the table never grows.
    pub closed spec fn spec_limit(&self) -> usize {
        self.limit
    }

    /// The number of connections in the table.
    pub open spec fn spec_len(&self) -> nat {
        self@.dom().len()
    }

    /// The table's invariant: the filled slots are finitely many, lie within
    /// the capacity, and each holds a connection that records the slot's own
    /// token; the capacity is within the limit.
    pub closed spec fn wf(&self) -> bool {
        &&& slab_slots(self.slots) == self.capacity
        &&& self.capacity <= self.limit <= MAX_SLOTS
        &&& self.live <= self.capacity
        &&& self@.dom().finite()
        &&& self@.dom().len() == self.live
        &&& forall|t: Token| #[trigger]
            self@.contains_key(t) ==> t.0 < self.capacity && self@[t].token == t
    }

    /// What the invariant says to the outside.
    pub proof fn lemma_wf(&self)
        requires
            self.wf(),
        ensures
            self@.dom().finite(),
            self.spec_len() <= self.spec_capacity() <= self.spec_limit() <= MAX_SLOTS,
            forall|t: Token| #[trigger]
                self@.contains_key(t) ==> t.0 < self.spec_capacity() && self@[t].token == t,
    {
    }

    /// An empty table of `initial` slots that grows up to `limit` slots.
    pub fn new(initial: usize, limit: usize) -> (table: ConnectionTable)
        requires
            initial <= limit <= MAX_SLOTS,
        ensures
            table.wf(),
            table@ == no_entries(),
            table.spec_capacity() == initial,
            table.spec_limit() == limit,
    {
        ConnectionTable { slots: slab_new(initial), capacity: initial, limit, live: 0 }
    }

    #[verifier::when_used_as_spec(spec_capacity)]
    pub fn capacity(&self) -> (n: usize)
        ensures
            n == self.spec_capacity(),
    {
        self.capacity
    }

    #[verifier::when_used_as_spec(spec_limit)]
    pub fn limit(&self) -> (n: usize)
        ensures
            n == self.spec_limit(),
    {
        self.limit
    }

    /// The number of connections in the table.
    pub fn len(&self) -> (n: usize)
        requires
            self.wf(),
        ensures
            n == self.spec_len(),
    {
        self.live
    }

    /// Whether a connection lives under `token`.
    pub fn contains(&self, token: Token) -> (b: bool)
        requires
            self.wf(),
        ensures
            b == self@.contains_key(token),
    {
        self.get(token).is_some()
    }

    /// The connection that lives under `token`, if any.
    pub fn get(&self, token: Token) -> (r: Option<&Connection>)
        requires
            self.wf(),
        ensures
            match r {
                Some(c) => self@.contains_key(token) && c@ == self@[token],
                None => !self@.contains_key(token),
            },
    {
        if token.0 < self.capacity {
            slab_get(&self.slots, token)
        } else {
            None
        }
    }

    /// Gives the request a free slot and stores it there as a connection
    /// that is still connecting. A full table grows first; a table that is
    /// full at its limit takes nothing and returns `None`.
    pub fn insert(&mut self, request: Request) -> (r: Option<Token>)
        requires
            old(self).wf(),
        ensures
            final(self).wf(),
            final(self).spec_limit() == old(self).spec_limit(),
            r.is_some() <==> old(self).spec_len() < old(self).spec_limit(),
            match r {
                Some(token) => {
                    &&& !old(self)@.contains_key(token)
                    &&& token.0 < final(self).spec_capacity()
                    &&& final(self)@ == old(self)@.insert(
                        token,
                        ConnectionView::opened(token, request@),
                    )
                    &&& final(self).spec_capacity() == if old(self).spec_len() < old(
                        self,
                    ).spec_capacity() {
                        old(self).spec_capacity() as int
                    } else {
                        old(self).spec_capacity() + growth_step(
                            old(self).spec_capacity(),
                            old(self).spec_limit(),
                        )
                    }
                },
                None => {
                    &&& final(self)@ == old(self)@
                    &&& final(self).spec_capacity() == old(self).spec_capacity()
                },
            },
    {
        if self.live == self.capacity {
            if self.capacity == self.limit {
                return None;
            }
            let room: usize = self.limit - self.capacity;
            let wish: usize = if self.capacity == 0 {
                1
            } else {
                self.capacity
            };
            let step: usize = if room < wish {
                room
            } else {
                wish
            };
            slab_grow(&mut self.slots, step);
            self.capacity = self.capacity + step;
        }
        match slab_insert_with(&mut self.slots, request) {
            Some(token) => {
                self.live = self.live + 1;
                Some(token)
            },
            None => None,
        }
    }

    /// Frees the slot of `token` and hands back the connection that lived
    /// there; `None`, and nothing changes, where none did.
    pub fn remove(&mut self, token: Token) -> (r: Option<Connection>)
        requires
            old(self).wf(),
        ensures
            final(self).wf(),
            final(self).spec_capacity() == old(self).spec_capacity(),
            final(self).spec_limit() == old(self).spec_limit(),
            final(self)@ == old(self)@.remove(token),
            match r {
                Some(c) => old(self)@.contains_key(token) && c@ == old(self)@[token],
                None => !old(self)@.contains_key(token),
            },
    {
        if !self.contains(token) {
            assert(self@.remove(token) == self@);
            return None;
        }
        let r = slab_remove(&mut self.slots, token);
        self.live = self.live - 1;
        r
    }

    /// Moves the connection under `token` to `phase`. Returns whether there
    /// is such a connection; nothing changes where there is none.
    pub fn set_phase(&mut self, token: Token, phase: Phase) -> (found: bool)
        requires
            old(self).wf(),
        ensures
            final(self).wf(),
            final(self).spec_capacity() == old(self).spec_capacity(),
            final(self).spec_limit() == old(self).spec_limit(),
            found == old(self)@.contains_key(token),
            final(self)@ == if found {
                old(self)@.insert(token, old(self)@[token].in_phase(phase))
            } else {
                old(self)@
            },
    {
        if !self.contains(token) {
            return false;
        }
        let c = slab_index_mut(&mut self.slots, token);
        c.phase = phase;
        assert(old(self)@.insert(token, old(self)@[token].in_phase(phase)).dom() == old(
            self,
        )@.dom());
        true
    }

    /// Frees every slot.
    pub fn clear(&mut self)
        requires
            old(self).wf(),
        ensures
            final(self).wf(),
            final(self).spec_capacity() == old(self).spec_capacity(),
            final(self).spec_limit() == old(self).spec_limit(),
            final(self)@ == no_entries(),
    {
        slab_clear(&mut self.slots);
        self.live = 0;
    }
}

} // verus!
