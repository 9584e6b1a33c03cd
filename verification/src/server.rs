//! The server actor: the directory of connections, the identifiers it gives
//! out, and where each message of the host and each report of a connection
//! goes.

use vstd::prelude::*;

use crate::connection::{ConnectionEvent, ConnectionEventModel};
use crate::event::{Event, EventModel, Identifier};
use crate::queue::EventQueue;

verus! {

/// One entry of the directory: the command port of a connection actor, and
/// whether that actor has reported itself ready.
pub struct Connection<H> {
    alive: bool,
    handle: H,
}

impl<H> Connection<H> {
    /// Whether the connection has been marked ready.
    pub closed spec fn alive(&self) -> bool {
        self.alive
    }

    /// The command port that the record owns.
    pub closed spec fn handle(&self) -> H {
        self.handle
    }

    /// A record for a connection that is still negotiating.
    pub fn new(handle: H) -> (c: Self)
        ensures
            !c.alive(),
            c.handle() == handle,
    {
        Connection { alive: false, handle }
    }

    /// Marks the connection ready for traffic.
    pub fn set_alive(&mut self)
        ensures
            final(self).alive(),
            final(self).handle() == old(self).handle(),
    {
        self.alive = true;
    }

    pub fn is_alive(&self) -> (alive: bool)
        ensures
            alive == self.alive(),
    {
        self.alive
    }

    /// The command port, to send through. Only a connection that is ready may
    /// be sent to.
    pub fn get_handle(&mut self) -> (handle: &mut H)
        requires
            old(self).alive(),
        ensures
            *handle == old(self).handle(),
            final(self).alive(),
            final(self).handle() == *final(handle),
    {
        &mut self.handle
    }
}

/// What the directory holds of one connection.
pub ghost struct Record<H> {
    pub id: Identifier,
    pub alive: bool,
    pub handle: H,
}

/// A payload to hand to the connection actor of `to`.
pub struct Delivery {
    pub to: Identifier,
    pub bytes: Vec<u8>,
    /// Over the WebSocket if set, over the data channel if not.
    pub reliable: bool,
}

/// The mathematical value of a [`Delivery`].
pub ghost struct DeliveryModel {
    pub to: Identifier,
    pub bytes: Seq<u8>,
    pub reliable: bool,
}

impl View for Delivery {
    type V = DeliveryModel;

    open spec fn view(&self) -> DeliveryModel {
        DeliveryModel { to: self.to, bytes: self.bytes@, reliable: self.reliable }
    }
}

/// The mathematical value of a list of deliveries.
pub open spec fn deliveries_of(out: Seq<Delivery>) -> Seq<DeliveryModel> {
    out.map_values(|d: Delivery| d@)
}

/// What the server actor is asked to handle.
pub enum ActorMessage<H> {
    /// A connection actor reported an event.
    HandleConnectionEvent(Identifier, ConnectionEvent),
    /// A client was accepted; the handle is the command port of the connection
    /// actor started for it under the next free identifier.
    HandleNewStream(H),
    /// The host wants the connection gone.
    Kill(Identifier),
    SendReliable(Identifier, Vec<u8>),
    SendUnreliable(Identifier, Vec<u8>),
    /// The host wants the payload sent reliably to every ready connection.
    Broadcast(Vec<u8>),
}

/// The mathematical value of an [`ActorMessage`].
pub ghost enum ActorMessageModel<H> {
    HandleConnectionEvent(Identifier, ConnectionEventModel),
    HandleNewStream(H),
    Kill(Identifier),
    SendReliable(Identifier, Seq<u8>),
    SendUnreliable(Identifier, Seq<u8>),
    Broadcast(Seq<u8>),
}

impl<H> View for ActorMessage<H> {
    type V = ActorMessageModel<H>;

    open spec fn view(&self) -> ActorMessageModel<H> {
        match self {
            ActorMessage::HandleConnectionEvent(id, event) => {
                ActorMessageModel::HandleConnectionEvent(*id, event@)
            },
            ActorMessage::HandleNewStream(handle) => ActorMessageModel::HandleNewStream(*handle),
            ActorMessage::Kill(id) => ActorMessageModel::Kill(*id),
            ActorMessage::SendReliable(id, bytes) => ActorMessageModel::SendReliable(*id, bytes@),
            ActorMessage::SendUnreliable(id, bytes) => ActorMessageModel::SendUnreliable(
                *id,
                bytes@,
            ),
            ActorMessage::Broadcast(bytes) => ActorMessageModel::Broadcast(bytes@),
        }
    }
}

/// The records stand in the order of their identifiers, none twice.
pub open spec fn ordered<H>(dir: Seq<Record<H>>) -> bool {
    forall|i: int, j: int| 0 <= i < j < dir.len() ==> dir[i].id < dir[j].id
}

/// Whether the directory holds a record for `id`.
pub open spec fn known<H>(dir: Seq<Record<H>>, id: Identifier) -> bool {
    exists|i: int| 0 <= i < dir.len() && #[trigger] dir[i].id == id
}

/// Whether the directory holds a record for `id` that is marked ready.
pub open spec fn ready<H>(dir: Seq<Record<H>>, id: Identifier) -> bool {
    exists|i: int| 0 <= i < dir.len() && #[trigger] dir[i].id == id && dir[i].alive
}

/// The identifier that the next accepted client gets: one more than the
/// largest in the directory, and 0 where the directory is empty.
pub open spec fn next_free<H>(dir: Seq<Record<H>>) -> int {
    if dir.len() == 0 {
        0
    } else {
        dir.last().id + 1
    }
}

/// The directory without the record of `id`.
pub open spec fn without<H>(dir: Seq<Record<H>>, id: Identifier) -> Seq<Record<H>> {
    dir.filter(|r: Record<H>| r.id != id)
}

/// The directory with the record of `id` marked ready.
pub open spec fn with_ready<H>(dir: Seq<Record<H>>, id: Identifier) -> Seq<Record<H>> {
    dir.map_values(
        |r: Record<H>|
            if r.id == id {
                Record { id: r.id, alive: true, handle: r.handle }
            } else {
                r
            },
    )
}

/// The command port that the record of `id` owns.
pub open spec fn handle_of<H>(dir: Seq<Record<H>>, id: Identifier) -> H {
    let i = choose|i: int| 0 <= i < dir.len() && #[trigger] dir[i].id == id;
    dir[i].handle
}

/// The directory with `handle` in the record of `id`.
pub open spec fn with_handle<H>(dir: Seq<Record<H>>, id: Identifier, handle: H) -> Seq<Record<H>> {
    dir.map_values(
        |r: Record<H>|
            if r.id == id {
                Record { id: r.id, alive: r.alive, handle }
            } else {
                r
            },
    )
}

/// The directory after a client was accepted.
pub open spec fn with_accepted<H>(dir: Seq<Record<H>>, handle: H) -> Seq<Record<H>> {
    dir.push(Record { id: next_free(dir) as Identifier, alive: false, handle })
}

/// One reliable delivery of `bytes` to each ready connection, by rising
/// identifier.
pub open spec fn broadcast_to<H>(dir: Seq<Record<H>>, bytes: Seq<u8>) -> Seq<DeliveryModel> {
    dir.filter(|r: Record<H>| r.alive).map_values(
        |r: Record<H>| DeliveryModel { to: r.id, bytes, reliable: true },
    )
}

/// The messages that the actor can handle in a given directory. The others are
/// errors of the caller: a send to a connection that is not ready, a report of
/// readiness from a connection that the directory does not hold, and an accept
/// when the identifiers have run out.
pub open spec fn admits<H>(dir: Seq<Record<H>>, message: ActorMessageModel<H>) -> bool {
    match message {
        ActorMessageModel::HandleConnectionEvent(
            id,
            ConnectionEventModel::ConnectionEstablished,
        ) => known(dir, id),
        ActorMessageModel::HandleConnectionEvent(_, _) => true,
        ActorMessageModel::HandleNewStream(_) => next_free(dir) <= Identifier::MAX,
        ActorMessageModel::Kill(_) => true,
        ActorMessageModel::SendReliable(to, _) => ready(dir, to),
        ActorMessageModel::SendUnreliable(to, _) => ready(dir, to),
        ActorMessageModel::Broadcast(_) => true,
    }
}

/// The directory after `message`.
pub open spec fn next_directory<H>(dir: Seq<Record<H>>, message: ActorMessageModel<H>) -> Seq<
    Record<H>,
> {
    match message {
        ActorMessageModel::HandleConnectionEvent(
            id,
            ConnectionEventModel::ConnectionEstablished,
        ) => with_ready(dir, id),
        ActorMessageModel::HandleConnectionEvent(
            id,
            ConnectionEventModel::ConnectionTerminated,
        ) => without(dir, id),
        ActorMessageModel::HandleConnectionEvent(_, ConnectionEventModel::MessageReceived(_)) => dir,
        ActorMessageModel::HandleNewStream(handle) => with_accepted(dir, handle),
        ActorMessageModel::Kill(id) => without(dir, id),
        ActorMessageModel::SendReliable(_, _) => dir,
        ActorMessageModel::SendUnreliable(_, _) => dir,
        ActorMessageModel::Broadcast(_) => dir,
    }
}

/// What `message` makes the host see.
pub open spec fn published<H>(message: ActorMessageModel<H>) -> Seq<EventModel> {
    match message {
        ActorMessageModel::HandleConnectionEvent(
            id,
            ConnectionEventModel::ConnectionEstablished,
        ) => seq![EventModel::Open(id)],
        ActorMessageModel::HandleConnectionEvent(
            id,
            ConnectionEventModel::ConnectionTerminated,
        ) => seq![EventModel::Closed(id)],
        ActorMessageModel::HandleConnectionEvent(
            id,
            ConnectionEventModel::MessageReceived(payload),
        ) => seq![EventModel::Received(id, payload)],
        _ => Seq::empty(),
    }
}

/// What `message` makes the actor send to connection actors.
pub open spec fn deliveries<H>(dir: Seq<Record<H>>, message: ActorMessageModel<H>) -> Seq<
    DeliveryModel,
> {
    match message {
        ActorMessageModel::SendReliable(to, bytes) => seq![
            DeliveryModel { to, bytes, reliable: true },
        ],
        ActorMessageModel::SendUnreliable(to, bytes) => seq![
            DeliveryModel { to, bytes, reliable: false },
        ],
        ActorMessageModel::Broadcast(bytes) => broadcast_to(dir, bytes),
        _ => Seq::empty(),
    }
}

/// Removing an identifier that the directory does not hold changes nothing.
pub proof fn lemma_without_absent<H>(dir: Seq<Record<H>>, id: Identifier)
    requires
        !known(dir, id),
    ensures
        without(dir, id) == dir,
    decreases dir.len(),
{
    reveal(Seq::filter);
    if dir.len() > 0 {
        let rest = dir.drop_last();
        assert forall|i: int| 0 <= i < rest.len() implies #[trigger] rest[i].id != id by {
            assert(dir[i].id == rest[i].id);
        }
        lemma_without_absent(rest, id);
        assert(dir.last().id != id) by {
            assert(dir[dir.len() - 1].id == dir.last().id);
        }
        assert(without(dir, id) =~= dir);
    } else {
        assert(without(dir, id) =~= dir);
    }
}

/// Removing the identifier of the record at `i` takes out that record and no
/// other.
pub proof fn lemma_without_present<H>(dir: Seq<Record<H>>, i: int)
    requires
        ordered(dir),
        0 <= i < dir.len(),
    ensures
        without(dir, dir[i].id) == dir.remove(i),
    decreases dir.len(),
{
    reveal(Seq::filter);
    let id = dir[i].id;
    let rest = dir.drop_last();
    if i == dir.len() - 1 {
        assert(!known(rest, id)) by {
            assert forall|k: int| 0 <= k < rest.len() implies #[trigger] rest[k].id != id by {
                assert(dir[k].id < dir[i].id);
            }
        }
        lemma_without_absent(rest, id);
        assert(without(dir, id) =~= dir.remove(i));
    } else {
        assert(ordered(rest));
        assert(rest[i].id == id);
        lemma_without_present(rest, i);
        assert(dir.last().id != id) by {
            assert(dir[i].id < dir[dir.len() - 1].id);
        }
        assert(without(dir, id) =~= dir.remove(i));
    }
}

/// The records that are left when one identifier is removed still stand in
/// order.
pub proof fn lemma_without_ordered<H>(dir: Seq<Record<H>>, id: Identifier)
    requires
        ordered(dir),
    ensures
        ordered(without(dir, id)),
        !known(without(dir, id), id),
{
    if known(dir, id) {
        let i = choose|i: int| 0 <= i < dir.len() && #[trigger] dir[i].id == id;
        lemma_without_present(dir, i);
        let out = dir.remove(i);
        assert forall|k: int| 0 <= k < out.len() implies #[trigger] out[k].id != id by {
            if k < i {
                assert(dir[k].id < dir[i].id);
            } else {
                assert(dir[i].id < dir[k + 1].id);
            }
        }
    } else {
        lemma_without_absent(dir, id);
    }
}

struct Entry<H> {
    id: Identifier,
    connection: Connection<H>,
}

impl<H> Entry<H> {
    spec fn record(self) -> Record<H> {
        Record { id: self.id, alive: self.connection.alive, handle: self.connection.handle }
    }
}

/// The server actor: the directory of the connections that it knows.
pub struct Actor<H> {
    connections: Vec<Entry<H>>,
}

impl<H> Actor<H> {
    /// The records of the directory.
    pub closed spec fn directory(&self) -> Seq<Record<H>> {
        self.connections@.map_values(|e: Entry<H>| e.record())
    }

    /// The records stand in the order of their identifiers, none twice.
    pub open spec fn wf(&self) -> bool {
        ordered(self.directory())
    }

    /// An actor with an empty directory.
    pub fn new() -> (actor: Self)
        ensures
            actor.wf(),
            actor.directory() == Seq::<Record<H>>::empty(),
    {
        let actor = Actor { connections: Vec::new() };
        assert(actor.directory() =~= Seq::<Record<H>>::empty());
        actor
    }

    /// Where the record of `id` stands, if the directory holds one.
    fn find(&self, id: Identifier) -> (at: Option<usize>)
        ensures
            match at {
                Some(i) => i < self.directory().len() && self.directory()[i as int].id == id,
                None => !known(self.directory(), id),
            },
    {
        let mut i: usize = 0;
        while i < self.connections.len()
            invariant
                i <= self.connections.len(),
                forall|k: int| 0 <= k < i ==> #[trigger] self.directory()[k].id != id,
            decreases self.connections.len() - i,
        {
            if self.connections[i].id == id {
                return Some(i);
            }
            i += 1;
        }
        None
    }

    /// Whether the directory holds a record for `id`.
    pub fn is_known(&self, id: Identifier) -> (yes: bool)
        ensures
            yes == known(self.directory(), id),
    {
        self.find(id).is_some()
    }

    /// Whether the directory holds a record for `id` that is marked ready.
    pub fn is_ready(&self, id: Identifier) -> (yes: bool)
        ensures
            yes == ready(self.directory(), id),
    {
        let mut i: usize = 0;
        while i < self.connections.len()
            invariant
                i <= self.connections.len(),
                forall|k: int|
                    0 <= k < i ==> !(#[trigger] self.directory()[k].id == id
                        && self.directory()[k].alive),
            decreases self.connections.len() - i,
        {
            if self.connections[i].id == id && self.connections[i].connection.is_alive() {
                assert(self.directory()[i as int].id == id && self.directory()[i as int].alive);
                return true;
            }
            i += 1;
        }
        false
    }

    /// Whether another client can be given an identifier.
    pub fn has_free_identifier(&self) -> (yes: bool)
        ensures
            yes == (next_free(self.directory()) <= Identifier::MAX),
    {
        let n = self.connections.len();
        if n == 0 {
            true
        } else {
            assert(self.directory().last().id == self.connections@[n - 1].id);
            self.connections[n - 1].id < Identifier::MAX
        }
    }

    /// The identifier that the next accepted client gets.
    pub fn next_free_identifier(&self) -> (id: Identifier)
        requires
            next_free(self.directory()) <= Identifier::MAX,
        ensures
            id == next_free(self.directory()),
    {
        let n = self.connections.len();
        if n == 0 {
            0
        } else {
            assert(self.directory().last().id == self.connections@[n - 1].id);
            self.connections[n - 1].id + 1
        }
    }

    /// Whether the actor can handle `message` in its present directory.
    pub fn accepts(&self, message: &ActorMessage<H>) -> (yes: bool)
        ensures
            yes == admits(self.directory(), message@),
    {
        match message {
            ActorMessage::HandleConnectionEvent(id, ConnectionEvent::ConnectionEstablished) => {
                self.is_known(*id)
            },
            ActorMessage::HandleConnectionEvent(_, _) => true,
            ActorMessage::HandleNewStream(_) => self.has_free_identifier(),
            ActorMessage::Kill(_) => true,
            ActorMessage::SendReliable(to, _) => self.is_ready(*to),
            ActorMessage::SendUnreliable(to, _) => self.is_ready(*to),
            ActorMessage::Broadcast(_) => true,
        }
    }

    /// Takes the record of `id` out of the directory, and with it the command
    /// port that the record owns.
    fn forget(&mut self, id: Identifier)
        requires
            old(self).wf(),
        ensures
            final(self).wf(),
            final(self).directory() == without(old(self).directory(), id),
    {
        proof {
            lemma_without_ordered(self.directory(), id);
        }
        match self.find(id) {
            Some(i) => {
                proof {
                    lemma_without_present(self.directory(), i as int);
                }
                let _ = self.connections.remove(i);
                assert(self.directory() =~= old(self).directory().remove(i as int));
            },
            None => {
                proof {
                    lemma_without_absent(self.directory(), id);
                }
            },
        }
    }

    /// Marks the record of `id` ready.
    fn mark_ready(&mut self, id: Identifier)
        requires
            old(self).wf(),
            known(old(self).directory(), id),
        ensures
            final(self).wf(),
            final(self).directory() == with_ready(old(self).directory(), id),
    {
        match self.find(id) {
            Some(i) => {
                let mut entry = self.connections.remove(i);
                entry.connection.set_alive();
                self.connections.insert(i, entry);
                assert(self.directory() =~= with_ready(old(self).directory(), id)) by {
                    assert forall|k: int| 0 <= k < old(self).directory().len() && k
                        != i implies old(self).directory()[k].id != id by {
                        if k < i {
                            assert(old(self).directory()[k].id < old(self).directory()[i as int].id);
                        } else {
                            assert(old(self).directory()[i as int].id < old(self).directory()[k].id);
                        }
                    }
                }
            },
            None => {},
        }
    }

    /// One reliable delivery of `bytes` for each ready connection.
    fn broadcast(&self, bytes: Vec<u8>) -> (out: Vec<Delivery>)
        ensures
            deliveries_of(out@) == broadcast_to(self.directory(), bytes@),
    {
        let mut out: Vec<Delivery> = Vec::new();
        let mut i: usize = 0;
        proof {
            reveal(Seq::filter);
            assert(self.directory().take(0) =~= Seq::<Record<H>>::empty());
            assert(deliveries_of(out@) =~= broadcast_to(
                self.directory().take(0),
                bytes@,
            ));
        }
        while i < self.connections.len()
            invariant
                i <= self.connections.len(),
                deliveries_of(out@) == broadcast_to(
                    self.directory().take(i as int),
                    bytes@,
                ),
            decreases self.connections.len() - i,
        {
            let ghost before = out@;
            proof {
                reveal(Seq::filter);
                assert(self.directory().take(i + 1).drop_last() =~= self.directory().take(i as int));
                assert(self.directory().take(i + 1).last() == self.directory()[i as int]);
            }
            if self.connections[i].connection.is_alive() {
                let copy = bytes.clone();
                assert(copy@ =~= bytes@);
                out.push(Delivery { to: self.connections[i].id, bytes: copy, reliable: true });
                proof {
                    let dir = self.directory();
                    let ready_before = dir.take(i as int).filter(|r: Record<H>| r.alive);
                    assert(dir[i as int].alive);
                    assert(dir.take(i + 1).filter(|r: Record<H>| r.alive) == ready_before.push(
                        dir[i as int],
                    ));
                    assert(deliveries_of(out@) =~= deliveries_of(before).push(
                        DeliveryModel { to: dir[i as int].id, bytes: bytes@, reliable: true },
                    ));
                }
                assert(deliveries_of(out@) =~= broadcast_to(
                    self.directory().take(i + 1),
                    bytes@,
                ));
            } else {
                assert(deliveries_of(out@) =~= broadcast_to(
                    self.directory().take(i + 1),
                    bytes@,
                ));
            }
            i += 1;
        }
        assert(self.directory().take(i as int) =~= self.directory());
        out
    }

    /// Handles one message: updates the directory, puts on `queue` what the
    /// host is to see, and returns what is to be sent to connection actors,
    /// in order.
    pub fn handle_message(&mut self, message: ActorMessage<H>, queue: &mut EventQueue) -> (out:
        Vec<Delivery>)
        requires
            old(self).wf(),
            admits(old(self).directory(), message@),
        ensures
            final(self).wf(),
            final(self).directory() == next_directory(old(self).directory(), message@),
            final(queue)@ == old(queue)@ + published(message@),
            deliveries_of(out@) == deliveries(old(self).directory(), message@),
            out@.len() == deliveries(old(self).directory(), message@).len(),
    {
        let mut out: Vec<Delivery> = Vec::new();
        match message {
            ActorMessage::Kill(id) => {
                self.forget(id);
            },
            ActorMessage::HandleConnectionEvent(id, event) => {
                match event {
                    ConnectionEvent::ConnectionEstablished => {
                        self.mark_ready(id);
                        queue.push(Event::Open(id));
                    },
                    ConnectionEvent::ConnectionTerminated => {
                        self.forget(id);
                        queue.push(Event::Closed(id));
                    },
                    ConnectionEvent::MessageReceived(payload) => {
                        queue.push(Event::Received(id, payload));
                    },
                }
            },
            ActorMessage::HandleNewStream(handle) => {
                let id = self.next_free_identifier();
                self.connections.push(Entry { id, connection: Connection::new(handle) });
                assert(self.directory() =~= with_accepted(old(self).directory(), handle));
            },
            ActorMessage::SendReliable(to, bytes) => {
                out.push(Delivery { to, bytes, reliable: true });
            },
            ActorMessage::SendUnreliable(to, bytes) => {
                out.push(Delivery { to, bytes, reliable: false });
            },
            ActorMessage::Broadcast(bytes) => {
                out = self.broadcast(bytes);
            },
        }
        assert(queue@ =~= old(queue)@ + published(message@));
        assert(deliveries_of(out@) =~= deliveries(old(self).directory(), message@));
        out
    }

    /// The command port of the connection `to`, to carry out a delivery. Only
    /// a connection that is ready may be sent to.
    pub fn get_handle(&mut self, to: Identifier) -> (handle: &mut H)
        requires
            old(self).wf(),
            ready(old(self).directory(), to),
        ensures
            *handle == handle_of(old(self).directory(), to),
            final(self).directory() == with_handle(old(self).directory(), to, *final(handle)),
            final(self).wf(),
    {
        let at = self.find(to);
        let i = at.unwrap();
        assert(self.directory()[i as int].alive) by {
            let k = choose|k: int|
                0 <= k < self.directory().len() && #[trigger] self.directory()[k].id == to
                    && self.directory()[k].alive;
            if k < i {
                assert(self.directory()[k].id < self.directory()[i as int].id);
            } else if i < k {
                assert(self.directory()[i as int].id < self.directory()[k].id);
            }
        }
        let handle = self.connections[i].connection.get_handle();
        handle
    }

    /// Forgets every connection, and with each the command port that its
    /// record owns: what is left to do when the host has gone.
    pub fn shutdown(&mut self)
        ensures
            final(self).wf(),
            final(self).directory() == Seq::<Record<H>>::empty(),
    {
        self.connections.clear();
        assert(self.directory() =~= Seq::<Record<H>>::empty());
    }
}

/// What the host sees of an event of the connection `id`.
pub open spec fn host_event(id: Identifier, event: ConnectionEventModel) -> EventModel {
    match event {
        ConnectionEventModel::ConnectionEstablished => EventModel::Open(id),
        ConnectionEventModel::ConnectionTerminated => EventModel::Closed(id),
        ConnectionEventModel::MessageReceived(payload) => EventModel::Received(id, payload),
    }
}

/// The directory after `messages` were handled in order.
pub open spec fn directory_after<H>(dir: Seq<Record<H>>, messages: Seq<ActorMessageModel<H>>) -> Seq<
    Record<H>,
>
    decreases messages.len(),
{
    if messages.len() == 0 {
        dir
    } else {
        next_directory(directory_after(dir, messages.drop_last()), messages.last())
    }
}

/// What the host sees while `messages` are handled in order.
pub open spec fn published_by<H>(messages: Seq<ActorMessageModel<H>>) -> Seq<EventModel>
    decreases messages.len(),
{
    if messages.len() == 0 {
        Seq::empty()
    } else {
        published_by(messages.drop_last()) + published(messages.last())
    }
}

/// The reports of the connection `id` as the server actor gets them.
pub open spec fn relayed<H>(id: Identifier, reports: Seq<ConnectionEventModel>) -> Seq<
    ActorMessageModel<H>,
> {
    reports.map_values(
        |e: ConnectionEventModel| ActorMessageModel::<H>::HandleConnectionEvent(id, e),
    )
}

/// No two records of a directory share an identifier.
pub proof fn lemma_no_shared_identifier<H>(dir: Seq<Record<H>>, i: int, j: int)
    requires
        ordered(dir),
        0 <= i < dir.len(),
        0 <= j < dir.len(),
        i != j,
    ensures
        dir[i].id != dir[j].id,
{
    if i < j {
        assert(dir[i].id < dir[j].id);
    } else {
        assert(dir[j].id < dir[i].id);
    }
}

/// The identifier that an accepted client gets is larger than every
/// identifier in the directory, so no connection in the directory has it.
pub proof fn lemma_fresh_identifier<H>(dir: Seq<Record<H>>, handle: H)
    requires
        ordered(dir),
        next_free(dir) <= Identifier::MAX,
    ensures
        forall|i: int| 0 <= i < dir.len() ==> (#[trigger] dir[i]).id < next_free(dir),
        !known(dir, next_free(dir) as Identifier),
        ordered(with_accepted(dir, handle)),
        known(with_accepted(dir, handle), next_free(dir) as Identifier),
        !ready(with_accepted(dir, handle), next_free(dir) as Identifier),
{
    let next = with_accepted(dir, handle);
    assert forall|i: int| 0 <= i < dir.len() implies (#[trigger] dir[i]).id < next_free(dir) by {
        if i < dir.len() - 1 {
            assert(dir[i].id < dir[dir.len() - 1].id);
        }
    }
    assert(next[dir.len() as int].id == next_free(dir));
    assert forall|i: int, j: int| 0 <= i < j < next.len() implies next[i].id < next[j].id by {
        if j < dir.len() {
            assert(dir[i].id < dir[j].id);
        } else {
            assert(next[i] == dir[i]);
        }
    }
    assert forall|i: int|
        0 <= i < next.len() && #[trigger] next[i].id == next_free(dir) implies !next[i].alive by {
        if i < dir.len() {
            assert(next[i] == dir[i]);
        }
    }
}

/// Whatever the actor handles, no two records of its directory come to share
/// an identifier.
pub proof fn lemma_directory_stays_ordered<H>(dir: Seq<Record<H>>, message: ActorMessageModel<H>)
    requires
        ordered(dir),
        admits(dir, message),
    ensures
        ordered(next_directory(dir, message)),
{
    match message {
        ActorMessageModel::HandleConnectionEvent(
            id,
            ConnectionEventModel::ConnectionEstablished,
        ) => {},
        ActorMessageModel::HandleConnectionEvent(
            id,
            ConnectionEventModel::ConnectionTerminated,
        ) => {
            lemma_without_ordered(dir, id);
        },
        ActorMessageModel::HandleNewStream(handle) => {
            lemma_fresh_identifier(dir, handle);
        },
        ActorMessageModel::Kill(id) => {
            lemma_without_ordered(dir, id);
        },
        _ => {},
    }
}

/// Once the host has been told that a connection is open, the connection is
/// ready, so that the actor handles a send to it.
pub proof fn lemma_open_is_ready<H>(dir: Seq<Record<H>>, id: Identifier, bytes: Seq<u8>)
    requires
        known(dir, id),
    ensures
        published::<H>(
            ActorMessageModel::HandleConnectionEvent(
                id,
                ConnectionEventModel::ConnectionEstablished,
            ),
        ) == seq![EventModel::Open(id)],
        ready(with_ready(dir, id), id),
        admits(with_ready(dir, id), ActorMessageModel::SendReliable(id, bytes)),
        admits(with_ready(dir, id), ActorMessageModel::SendUnreliable(id, bytes)),
{
    let i = choose|i: int| 0 <= i < dir.len() && #[trigger] dir[i].id == id;
    let next = with_ready(dir, id);
    assert(next[i].id == id && next[i].alive);
}

/// Whether the message takes the connection `id` out of the directory: the
/// host's wish to have it gone, and the report of its end, which the host
/// sees as `Closed`.
pub open spec fn removes<H>(message: ActorMessageModel<H>, id: Identifier) -> bool {
    message == ActorMessageModel::<H>::Kill(id) || message
        == ActorMessageModel::<H>::HandleConnectionEvent(
        id,
        ConnectionEventModel::ConnectionTerminated,
    )
}

/// A ready connection stays ready when the actor handles a message that does
/// not remove it.
pub proof fn lemma_stays_ready<H>(dir: Seq<Record<H>>, message: ActorMessageModel<H>, id: Identifier)
    requires
        ordered(dir),
        admits(dir, message),
        ready(dir, id),
        !removes(message, id),
    ensures
        ready(next_directory(dir, message), id),
{
    let i = choose|i: int| 0 <= i < dir.len() && #[trigger] dir[i].id == id && dir[i].alive;
    let next = next_directory(dir, message);
    match message {
        ActorMessageModel::HandleConnectionEvent(
            other,
            ConnectionEventModel::ConnectionEstablished,
        ) => {
            assert(next[i].id == id && next[i].alive);
        },
        ActorMessageModel::HandleConnectionEvent(
            other,
            ConnectionEventModel::ConnectionTerminated,
        ) => {
            lemma_stays_without(dir, other, i);
        },
        ActorMessageModel::HandleNewStream(handle) => {
            assert(next[i] == dir[i]);
            assert(next[i].id == id && next[i].alive);
        },
        ActorMessageModel::Kill(other) => {
            lemma_stays_without(dir, other, i);
        },
        _ => {},
    }
}

/// Removing one identifier leaves the records of the others as they are.
proof fn lemma_stays_without<H>(dir: Seq<Record<H>>, other: Identifier, i: int)
    requires
        ordered(dir),
        0 <= i < dir.len(),
        dir[i].id != other,
    ensures
        exists|k: int|
            0 <= k < without(dir, other).len() && #[trigger] without(dir, other)[k] == dir[i],
{
    if known(dir, other) {
        let j = choose|j: int| 0 <= j < dir.len() && #[trigger] dir[j].id == other;
        lemma_without_present(dir, j);
        let out = dir.remove(j);
        if i < j {
            assert(out[i] == dir[i]);
        } else {
            assert(out[i - 1] == dir[i]);
        }
    } else {
        lemma_without_absent(dir, other);
        assert(without(dir, other)[i] == dir[i]);
    }
}

/// Whether the actor can handle each of `messages` in its turn.
pub open spec fn admits_all<H>(dir: Seq<Record<H>>, messages: Seq<ActorMessageModel<H>>) -> bool {
    forall|k: int|
        0 <= k < messages.len() ==> admits(
            directory_after(dir, #[trigger] messages.take(k)),
            messages[k],
        )
}

/// From the moment a connection is ready until it is killed or the host sees
/// it closed, the actor handles a send to it, reliable or not.
pub proof fn lemma_ready_until_removed<H>(
    dir: Seq<Record<H>>,
    messages: Seq<ActorMessageModel<H>>,
    id: Identifier,
    bytes: Seq<u8>,
)
    requires
        ordered(dir),
        ready(dir, id),
        admits_all(dir, messages),
        forall|k: int| 0 <= k < messages.len() ==> !removes(#[trigger] messages[k], id),
    ensures
        ordered(directory_after(dir, messages)),
        ready(directory_after(dir, messages), id),
        admits(directory_after(dir, messages), ActorMessageModel::SendReliable(id, bytes)),
        admits(directory_after(dir, messages), ActorMessageModel::SendUnreliable(id, bytes)),
    decreases messages.len(),
{
    if messages.len() > 0 {
        let earlier = messages.drop_last();
        assert forall|k: int| 0 <= k < earlier.len() implies admits(
            directory_after(dir, #[trigger] earlier.take(k)),
            earlier[k],
        ) by {
            assert(earlier.take(k) =~= messages.take(k));
            assert(earlier[k] == messages[k]);
        }
        assert forall|k: int| 0 <= k < earlier.len() implies !removes(#[trigger] earlier[k], id) by {
            assert(earlier[k] == messages[k]);
        }
        lemma_ready_until_removed(dir, earlier, id, bytes);
        let before = directory_after(dir, earlier);
        assert(messages.take(messages.len() - 1) =~= earlier);
        assert(admits(before, messages[messages.len() - 1]));
        lemma_directory_stays_ordered(before, messages.last());
        lemma_stays_ready(before, messages.last(), id);
    }
}

/// The host sees one event for each report of a connection, in the order of
/// the reports: `Open` for readiness, `Received` for a payload, `Closed` for
/// the end.
pub proof fn lemma_reports_published<H>(id: Identifier, reports: Seq<ConnectionEventModel>)
    ensures
        published_by(relayed::<H>(id, reports)) == reports.map_values(
            |e: ConnectionEventModel| host_event(id, e),
        ),
    decreases reports.len(),
{
    let messages = relayed::<H>(id, reports);
    let events = reports.map_values(|e: ConnectionEventModel| host_event(id, e));
    if reports.len() > 0 {
        lemma_reports_published::<H>(id, reports.drop_last());
        assert(messages.drop_last() =~= relayed::<H>(id, reports.drop_last()));
        assert(published(messages.last()) == seq![host_event(id, reports.last())]);
        assert(published_by(messages) =~= events);
    } else {
        assert(published_by(messages) =~= events);
    }
}

/// The reports of the connection `id` among `messages`, in order.
pub open spec fn reports_of<H>(id: Identifier, messages: Seq<ActorMessageModel<H>>) -> Seq<
    ConnectionEventModel,
>
    decreases messages.len(),
{
    if messages.len() == 0 {
        Seq::empty()
    } else {
        let before = reports_of(id, messages.drop_last());
        match messages.last() {
            ActorMessageModel::HandleConnectionEvent(from, event) => if from == id {
                before.push(event)
            } else {
                before
            },
            _ => before,
        }
    }
}

/// The events that speak of the connection `id` among `events`, in order.
pub open spec fn seen_of(id: Identifier, events: Seq<EventModel>) -> Seq<EventModel> {
    events.filter(|e: EventModel| e.id() == id)
}

/// Whatever else the actor handles in between, what the host sees of one
/// connection is one event for each report of that connection, in the order
/// of the reports.
pub proof fn lemma_seen_follows_reports<H>(id: Identifier, messages: Seq<ActorMessageModel<H>>)
    ensures
        seen_of(id, published_by(messages)) == reports_of(id, messages).map_values(
            |e: ConnectionEventModel| host_event(id, e),
        ),
    decreases messages.len(),
{
    reveal(Seq::filter);
    let wanted = |e: EventModel| e.id() == id;
    if messages.len() > 0 {
        let earlier = messages.drop_last();
        lemma_seen_follows_reports(id, earlier);
        let step = published(messages.last());
        Seq::filter_distributes_over_add(published_by(earlier), step, wanted);
        match messages.last() {
            ActorMessageModel::HandleConnectionEvent(from, event) => {
                assert(step == seq![host_event(from, event)]);
                assert(step.drop_last() =~= Seq::<EventModel>::empty());
                assert(step.drop_last().filter(wanted) =~= Seq::<EventModel>::empty());
                assert(host_event(from, event).id() == from);
                if from == id {
                    assert(step.filter(wanted) =~= step);
                } else {
                    assert(step.filter(wanted) =~= Seq::<EventModel>::empty());
                }
            },
            _ => {
                assert(step.filter(wanted) =~= Seq::<EventModel>::empty());
            },
        }
        assert(seen_of(id, published_by(messages)) =~= reports_of(id, messages).map_values(
            |e: ConnectionEventModel| host_event(id, e),
        ));
    } else {
        assert(seen_of(id, published_by(messages)) =~= reports_of(id, messages).map_values(
            |e: ConnectionEventModel| host_event(id, e),
        ));
    }
}

} // verus!
