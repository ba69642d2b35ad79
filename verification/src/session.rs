//! The fetch session manager: the protocol that splits one HTTP exchange
//! into open, send, cancel and read-stream, over the resource table.
//!
//! A session is three table entries: the pending work, the sending half of a
//! cancellation pair and a receiving half that is linked to the sending one.
//! The signal of a pair counts as raised as soon as the sending half has left
//! the table, whether it was fired or closed. The host does the waiting: it
//! drives the work and drains the body, and tells the manager how that ended.

use vstd::prelude::*;
use crate::error::Error;
use crate::response::{
    response_meta, shown_headers, text_pairs, FetchReturn, FetchSendResponseMeta, ResponseHeader,
};
use crate::http::status_text_of;
use crate::signal::{fire, new_pair, resubscribe};
use crate::stream::{DrainPhase, StreamReader};
use crate::table::{holds, ResourceId, ResourceKind, ResourceTable, Slot};
use tokio::sync::broadcast::{Receiver, Sender};

verus! {

/// What the table of the session manager holds behind a handle: one variant
/// for each kind of resource. `W` is the pending work, `B` an unread body.
pub enum Resource<W, B> {
    Request(W),
    AbortSender(Sender<()>),
    AbortReceiver(Receiver<()>),
    Body(B),
}

/// The kind of a resource.
pub open spec fn kind_of<W, B>(resource: Resource<W, B>) -> ResourceKind {
    match resource {
        Resource::Request(_) => ResourceKind::Request,
        Resource::AbortSender(_) => ResourceKind::AbortSender,
        Resource::AbortReceiver(_) => ResourceKind::AbortReceiver,
        Resource::Body(_) => ResourceKind::Body,
    }
}

/// Whether every entry of `m` is tagged with the kind of what it holds.
pub open spec fn tagged<W, B>(m: Map<ResourceId, Slot<Resource<W, B>>>) -> bool {
    forall|rid: ResourceId| #[trigger] m.contains_key(rid) ==> m[rid].kind == kind_of(m[rid].value)
}

/// The fetch session manager. It owns the resource table.
pub struct Sessions<W, B> {
    table: ResourceTable<Resource<W, B>>,
}

/// How the host's drive of the pending work ended.
pub enum SendOutcome<B> {
    /// The router answered: status, headers, and the body still to be read.
    Completed { status: u16, headers: Vec<ResponseHeader>, body: B },
    /// The work failed.
    Failed(Error),
    /// The cancellation signal fired before the router answered.
    Canceled,
}

/// What `begin_send` decides.
pub enum SendGate {
    /// Both entries are there and the signal is not raised: take the work and drive it.
    Drive,
    /// This handle names no entry of the kind needed.
    Missing(ResourceId),
    /// The signal is raised already.
    Canceled,
}

/// What `begin_read` decides.
pub enum ReadGate {
    /// Body and receiver are there and the signal is not raised: drain.
    Drain,
    /// The body is not there to be taken.
    BodyGone,
    /// This handle names no receiver.
    Missing(ResourceId),
    /// The signal is raised already.
    Canceled,
}

/// What a drive starts from: the work, now owned by the caller, and a
/// receiver of the session's signal to race it against.
pub struct SendStart<W> {
    pub work: W,
    pub receiver: Receiver<()>,
}

/// What a drain starts from: the body, now owned by the caller, a receiver
/// of the session's signal to race the drain against, and a reader in its
/// first phase.
pub struct ReadStart<B> {
    pub body: B,
    pub receiver: Receiver<()>,
    pub reader: StreamReader,
}

/// Whether the signal that the receiver under `rxid` listens to is raised:
/// the sending half it is linked to is no longer in the table.
pub open spec fn signal_raised<T>(m: Map<ResourceId, Slot<T>>, rxid: ResourceId) -> bool {
    !holds(m, m[rxid].peer, ResourceKind::AbortSender)
}

/// Whether `rid`, `txid` and `rxid` are the entries of one session in `m`.
pub open spec fn session_open<T>(
    m: Map<ResourceId, Slot<T>>,
    rid: ResourceId,
    txid: ResourceId,
    rxid: ResourceId,
) -> bool {
    &&& holds(m, rid, ResourceKind::Request)
    &&& holds(m, txid, ResourceKind::AbortSender)
    &&& holds(m, rxid, ResourceKind::AbortReceiver)
    &&& m[rxid].peer == txid
}

/// The table after a session was opened in `m` under the handles `first`,
/// `first + 1` and `first + 2`.
pub open spec fn opened<T>(
    m: Map<ResourceId, Slot<T>>,
    first: ResourceId,
    work: T,
    sender: T,
    receiver: T,
) -> Map<ResourceId, Slot<T>> {
    let rid = first;
    let txid = (first + 1) as ResourceId;
    let rxid = (first + 2) as ResourceId;
    m.insert(rid, Slot { kind: ResourceKind::Request, peer: rid, value: work }).insert(
        txid,
        Slot { kind: ResourceKind::AbortSender, peer: txid, value: sender },
    ).insert(rxid, Slot { kind: ResourceKind::AbortReceiver, peer: txid, value: receiver })
}

/// The table without the three entries of a session.
pub open spec fn closed_session<T>(
    m: Map<ResourceId, Slot<T>>,
    rid: ResourceId,
    txid: ResourceId,
    rxid: ResourceId,
) -> Map<ResourceId, Slot<T>> {
    m.remove(rid).remove(txid).remove(rxid)
}

/// The table after `cancel(txid)`.
pub open spec fn after_cancel<T>(m: Map<ResourceId, Slot<T>>, txid: ResourceId) -> Map<
    ResourceId,
    Slot<T>,
> {
    if holds(m, txid, ResourceKind::AbortSender) {
        m.remove(txid)
    } else {
        m
    }
}

/// What `begin_send(rid, rxid, ..)` decides in `m`.
pub open spec fn send_gate<T>(m: Map<ResourceId, Slot<T>>, rid: ResourceId, rxid: ResourceId)
    -> SendGate {
    if !holds(m, rid, ResourceKind::Request) {
        SendGate::Missing(rid)
    } else if !holds(m, rxid, ResourceKind::AbortReceiver) {
        SendGate::Missing(rxid)
    } else if signal_raised(m, rxid) {
        SendGate::Canceled
    } else {
        SendGate::Drive
    }
}

/// The table after `begin_send(rid, rxid, txid)`.
pub open spec fn after_begin_send<T>(
    m: Map<ResourceId, Slot<T>>,
    rid: ResourceId,
    rxid: ResourceId,
    txid: ResourceId,
) -> Map<ResourceId, Slot<T>> {
    match send_gate(m, rid, rxid) {
        SendGate::Drive => m.remove(rid),
        SendGate::Missing(_) => m,
        SendGate::Canceled => closed_session(m, rid, txid, rxid),
    }
}

/// What `begin_read(bodyid, rxid, ..)` decides in `m`.
pub open spec fn read_gate<T>(m: Map<ResourceId, Slot<T>>, bodyid: ResourceId, rxid: ResourceId)
    -> ReadGate {
    if !holds(m, bodyid, ResourceKind::Body) {
        ReadGate::BodyGone
    } else if !holds(m, rxid, ResourceKind::AbortReceiver) {
        ReadGate::Missing(rxid)
    } else if signal_raised(m, rxid) {
        ReadGate::Canceled
    } else {
        ReadGate::Drain
    }
}

/// The table after `begin_read(bodyid, rxid, txid)`.
pub open spec fn after_begin_read<T>(
    m: Map<ResourceId, Slot<T>>,
    bodyid: ResourceId,
    rxid: ResourceId,
    txid: ResourceId,
) -> Map<ResourceId, Slot<T>> {
    match read_gate(m, bodyid, rxid) {
        ReadGate::BodyGone => m.remove(txid),
        ReadGate::Missing(_) => m.remove(bodyid).remove(txid),
        ReadGate::Canceled => m.remove(bodyid).remove(rxid).remove(txid),
        ReadGate::Drain => m.remove(bodyid).remove(rxid),
    }
}

impl<W, B> Sessions<W, B> {
    /// The entries of the table, by handle.
    pub closed spec fn view(&self) -> Map<ResourceId, Slot<Resource<W, B>>> {
        self.table@
    }

    /// The handle that the next new entry gets.
    pub closed spec fn next_id(&self) -> ResourceId {
        self.table.next_id()
    }

    /// The table is well formed and every entry is tagged with the kind of
    /// what it holds.
    pub closed spec fn wf(&self) -> bool {
        self.table.wf() && tagged(self.table@)
    }

    /// How many more entries the table can take before it runs out of handles.
    pub open spec fn room(&self) -> int {
        u32::MAX - self.next_id()
    }

    /// Whether `later` can be a later state of this manager: no handle that
    /// was handed out names anything in `later` that it did not name,
    /// unchanged, before.
    pub open spec fn precedes(&self, later: &Self) -> bool {
        &&& self.next_id() <= later.next_id()
        &&& forall|rid: ResourceId|
            rid < self.next_id() && #[trigger] later@.contains_key(rid) ==> self@.contains_key(rid)
                && later@[rid] == self@[rid]
    }

    /// What is in the table, or is linked to from it, was handed out before,
    /// and is tagged with the kind of what it holds.
    pub proof fn lemma_entries_are_sound(&self, rid: ResourceId)
        requires
            self.wf(),
            self@.contains_key(rid),
        ensures
            rid < self.next_id(),
            self@[rid].peer < self.next_id(),
            self@[rid].kind == kind_of(self@[rid].value),
    {
        self.table.lemma_handles_below_next(rid);
    }

    /// A manager without sessions.
    pub fn new() -> (sessions: Self)
        ensures
            sessions.wf(),
            sessions@ == Map::<ResourceId, Slot<Resource<W, B>>>::empty(),
            sessions.next_id() == 0,
    {
        Sessions { table: ResourceTable::new() }
    }

    /// Whether at least `n` more entries can be added.
    pub fn has_room(&self, n: u32) -> (b: bool)
        ensures
            b == (self.room() >= n),
    {
        self.table.has_room(n)
    }

    /// Whether `rid` names an entry, of any kind.
    pub fn has(&self, rid: ResourceId) -> (b: bool)
        ensures
            b == self@.contains_key(rid),
    {
        self.table.has(rid)
    }

    /// Whether `rid` names an entry of kind `kind`.
    pub fn has_kind(&self, rid: ResourceId, kind: ResourceKind) -> (b: bool)
        ensures
            b == holds(self@, rid, kind),
    {
        match self.table.peer_of(rid, kind) {
            Ok(_) => true,
            Err(_) => false,
        }
    }

    /// Opens a session: stores the pending work and a fresh cancellation
    /// pair under three new handles and returns these. Nothing is driven.
    pub fn open(&mut self, work: W) -> (handles: FetchReturn)
        requires
            old(self).wf(),
            old(self).room() >= 3,
        ensures
            final(self).wf(),
            old(self).precedes(final(self)),
            handles.rid == old(self).next_id(),
            handles.txid == handles.rid + 1,
            handles.rxid == handles.rid + 2,
            final(self).next_id() == old(self).next_id() + 3,
            final(self)@ == opened(
                old(self)@,
                handles.rid,
                Resource::Request(work),
                final(self)@[handles.txid].value,
                final(self)@[handles.rxid].value,
            ),
            session_open(final(self)@, handles.rid, handles.txid, handles.rxid),
            !old(self)@.contains_key(handles.rid),
            !old(self)@.contains_key(handles.txid),
            !old(self)@.contains_key(handles.rxid),
    {
        proof {
            let next = self.table.next_id();
            assert forall|rid: ResourceId| old(self)@.contains_key(rid) implies rid < next by {
                self.table.lemma_handles_below_next(rid);
            }
        }
        let (sender, receiver) = new_pair();
        let rid = self.table.add(ResourceKind::Request, Resource::Request(work));
        let txid = self.table.add(ResourceKind::AbortSender, Resource::AbortSender(sender));
        let rxid = self.table.add_linked(
            ResourceKind::AbortReceiver,
            txid,
            Resource::AbortReceiver(receiver),
        );
        FetchReturn { rid, txid, rxid }
    }

    /// The first half of `send`: looks up the work and the receiver, and
    /// tests the signal. If either entry is missing the call fails with
    /// `NotFound` and changes nothing. If the signal is raised, the three
    /// entries of the session are closed and the call fails with `Canceled`.
    /// Otherwise the work is taken out of the table and handed to the caller,
    /// who alone may now drive it, racing it against the receiver that comes
    /// with it, and is to report to `finish_send`. The session's own
    /// receiver stays in the table.
    pub fn begin_send(&mut self, rid: ResourceId, rxid: ResourceId, txid: ResourceId) -> (r: Result<
        SendStart<W>,
        Error,
    >)
        requires
            old(self).wf(),
        ensures
            final(self).wf(),
            old(self).precedes(final(self)),
            final(self).next_id() == old(self).next_id(),
            final(self)@ == after_begin_send(old(self)@, rid, rxid, txid),
            match send_gate(old(self)@, rid, rxid) {
                SendGate::Drive => r matches Ok(start) && old(self)@[rid].value
                    == Resource::Request::<W, B>(start.work),
                SendGate::Missing(handle) => r matches Err(e) && e == Error::NotFound(handle),
                SendGate::Canceled => r matches Err(e) && e == Error::Canceled,
            },
    {
        if !self.has_kind(rid, ResourceKind::Request) {
            return Err(Error::NotFound(rid));
        }
        let peer = match self.table.peer_of(rxid, ResourceKind::AbortReceiver) {
            Ok(peer) => peer,
            Err(e) => {
                return Err(e);
            },
        };
        if !self.has_kind(peer, ResourceKind::AbortSender) {
            let _ = self.table.close(rid);
            let _ = self.table.close(txid);
            let _ = self.table.close(rxid);
            return Err(Error::Canceled);
        }
        let receiver = match self.table.get(rxid, ResourceKind::AbortReceiver) {
            Ok(Resource::AbortReceiver(receiver)) => resubscribe(receiver),
            _ => {
                return Err(Error::NotFound(rxid));
            },
        };
        match self.table.take(rid, ResourceKind::Request) {
            Ok(Resource::Request(work)) => Ok(SendStart { work, receiver }),
            _ => Err(Error::NotFound(rid)),
        }
    }

    /// The second half of `send`: takes note of how the drive ended.
    ///
    /// If the router answered, the body is stored under a new handle,
    /// whatever is left under the handle of the work is closed, and the
    /// metadata of the response is returned. If the signal fired first, the
    /// three entries of the session are closed and the call fails with
    /// `Canceled`. If the work failed, its error is returned and the table
    /// stays as it is.
    pub fn finish_send(
        &mut self,
        rid: ResourceId,
        rxid: ResourceId,
        txid: ResourceId,
        outcome: SendOutcome<B>,
    ) -> (r: Result<FetchSendResponseMeta, Error>)
        requires
            old(self).wf(),
            outcome is Completed ==> old(self).room() >= 1,
        ensures
            final(self).wf(),
            old(self).precedes(final(self)),
            match outcome {
                SendOutcome::Completed { status, headers, body } => {
                    &&& r matches Ok(meta)
                    &&& meta.bodyid == old(self).next_id()
                    &&& meta.status == status
                    &&& meta.status_text@ == status_text_of(status)
                    &&& text_pairs(meta.headers@) == shown_headers(headers@)
                    &&& final(self)@ == old(self)@.insert(
                        meta.bodyid,
                        Slot {
                            kind: ResourceKind::Body,
                            peer: meta.bodyid,
                            value: Resource::Body(body),
                        },
                    ).remove(rid)
                    &&& final(self).next_id() == old(self).next_id() + 1
                },
                SendOutcome::Failed(e) => {
                    &&& r == Err::<FetchSendResponseMeta, Error>(e)
                    &&& final(self)@ == old(self)@
                    &&& final(self).next_id() == old(self).next_id()
                },
                SendOutcome::Canceled => {
                    &&& r == Err::<FetchSendResponseMeta, Error>(Error::Canceled)
                    &&& final(self)@ == closed_session(old(self)@, rid, txid, rxid)
                    &&& final(self).next_id() == old(self).next_id()
                },
            },
    {
        match outcome {
            SendOutcome::Completed { status, headers, body } => {
                let bodyid = self.table.add(ResourceKind::Body, Resource::Body(body));
                let _ = self.table.close(rid);
                Ok(response_meta(status, &headers, bodyid))
            },
            SendOutcome::Failed(e) => Err(e),
            SendOutcome::Canceled => {
                let _ = self.table.close(rid);
                let _ = self.table.close(txid);
                let _ = self.table.close(rxid);
                Err(Error::Canceled)
            },
        }
    }

    /// Cancels a session: takes the sending half out of the table and fires
    /// it. Only the call that gets the sending half fires, and from then on
    /// the signal counts as raised. Fails with `NotFound`, changing nothing
    /// and firing nothing, if `txid` names no sending half, as it does on
    /// every call after the first.
    pub fn cancel(&mut self, txid: ResourceId) -> (r: Result<(), Error>)
        requires
            old(self).wf(),
        ensures
            final(self).wf(),
            old(self).precedes(final(self)),
            final(self).next_id() == old(self).next_id(),
            final(self)@ == after_cancel(old(self)@, txid),
            holds(old(self)@, txid, ResourceKind::AbortSender) ==> r == Ok::<(), Error>(()),
            !holds(old(self)@, txid, ResourceKind::AbortSender) ==> r == Err::<(), Error>(
                Error::NotFound(txid),
            ),
    {
        match self.table.take(txid, ResourceKind::AbortSender) {
            Ok(Resource::AbortSender(sender)) => {
                fire(sender);
                Ok(())
            },
            Ok(_) => Ok(()),
            Err(e) => Err(e),
        }
    }

    /// The first half of `read_stream`: takes the body and the receiver out
    /// of the table and tests the signal.
    ///
    /// If the body cannot be taken the call fails with `Canceled`. If `rxid`
    /// names no receiver it fails with `NotFound`; the body is gone by then.
    /// If the signal is raised it fails with `Canceled`. On each of these
    /// paths the entry under `txid` is closed. Otherwise the caller owns the
    /// body and is to drain it through the reader, racing the drain against
    /// the receiver that comes with it, and to report to `finish_read`.
    pub fn begin_read(&mut self, bodyid: ResourceId, rxid: ResourceId, txid: ResourceId) -> (r:
        Result<ReadStart<B>, Error>)
        requires
            old(self).wf(),
        ensures
            final(self).wf(),
            old(self).precedes(final(self)),
            final(self).next_id() == old(self).next_id(),
            final(self)@ == after_begin_read(old(self)@, bodyid, rxid, txid),
            match read_gate(old(self)@, bodyid, rxid) {
                ReadGate::Drain => {
                    &&& r matches Ok(start)
                    &&& old(self)@[bodyid].value == Resource::Body::<W, B>(start.body)
                    &&& start.reader.phase() == DrainPhase::Reading
                },
                ReadGate::BodyGone => r matches Err(e) && e == Error::Canceled,
                ReadGate::Missing(handle) => r matches Err(e) && e == Error::NotFound(handle),
                ReadGate::Canceled => r matches Err(e) && e == Error::Canceled,
            },
    {
        let body = match self.table.take(bodyid, ResourceKind::Body) {
            Ok(Resource::Body(body)) => body,
            _ => {
                let _ = self.table.close(txid);
                return Err(Error::Canceled);
            },
        };
        let peer = match self.table.peer_of(rxid, ResourceKind::AbortReceiver) {
            Ok(peer) => peer,
            Err(e) => {
                let _ = self.table.close(txid);
                return Err(e);
            },
        };
        let raised = !self.has_kind(peer, ResourceKind::AbortSender);
        let own = match self.table.take(rxid, ResourceKind::AbortReceiver) {
            Ok(Resource::AbortReceiver(own)) => own,
            _ => {
                let _ = self.table.close(txid);
                return Err(Error::NotFound(rxid));
            },
        };
        if raised {
            let _ = self.table.close(txid);
            return Err(Error::Canceled);
        }
        let receiver = resubscribe(&own);
        Ok(ReadStart { body, receiver, reader: StreamReader::new() })
    }

    /// The second half of `read_stream`: closes the entry under `txid`, and
    /// succeeds if the drain ran to its end. A drain that was canceled, or
    /// given up before its end, fails with `Canceled`.
    pub fn finish_read(&mut self, txid: ResourceId, reader: StreamReader) -> (r: Result<(), Error>)
        requires
            old(self).wf(),
        ensures
            final(self).wf(),
            old(self).precedes(final(self)),
            final(self).next_id() == old(self).next_id(),
            final(self)@ == old(self)@.remove(txid),
            reader.phase() == DrainPhase::Finished ==> r == Ok::<(), Error>(()),
            reader.phase() != DrainPhase::Finished ==> r == Err::<(), Error>(Error::Canceled),
    {
        let _ = self.table.close(txid);
        match reader.current_phase() {
            DrainPhase::Finished => Ok(()),
            _ => Err(Error::Canceled),
        }
    }
}

/// For a session that was opened and not canceled, `send` decides to drive
/// the work and takes it out of the table; the rest of the table stays.
pub proof fn lemma_send_after_open<T>(
    m: Map<ResourceId, Slot<T>>,
    rid: ResourceId,
    txid: ResourceId,
    rxid: ResourceId,
)
    requires
        session_open(m, rid, txid, rxid),
    ensures
        send_gate(m, rid, rxid) is Drive,
        after_begin_send(m, rid, rxid, txid) == m.remove(rid),
{
}

/// The work of a session is driven once: after `send` has taken it, a second
/// `send` on the same handle fails with `NotFound` and changes nothing.
pub proof fn lemma_work_is_driven_once<T>(
    m: Map<ResourceId, Slot<T>>,
    rid: ResourceId,
    txid: ResourceId,
    rxid: ResourceId,
)
    requires
        send_gate(m, rid, rxid) is Drive,
    ensures
        send_gate(after_begin_send(m, rid, rxid, txid), rid, rxid) == SendGate::Missing(rid),
        after_begin_send(after_begin_send(m, rid, rxid, txid), rid, rxid, txid)
            == after_begin_send(m, rid, rxid, txid),
{
}

/// Cancel before send: after `cancel`, `send` fails with `Canceled`, and
/// none of the session's three handles names anything any more, whatever
/// kind is asked for, so every later use of them fails with `NotFound`.
pub proof fn lemma_cancel_before_send<T>(
    m: Map<ResourceId, Slot<T>>,
    rid: ResourceId,
    txid: ResourceId,
    rxid: ResourceId,
)
    requires
        session_open(m, rid, txid, rxid),
    ensures
        send_gate(after_cancel(m, txid), rid, rxid) is Canceled,
        ({
            let left = after_begin_send(after_cancel(m, txid), rid, rxid, txid);
            &&& !left.contains_key(rid)
            &&& !left.contains_key(txid)
            &&& !left.contains_key(rxid)
            &&& send_gate(left, rid, rxid) == SendGate::Missing(rid)
            &&& after_cancel(left, txid) == left
            &&& forall|kind: ResourceKind|
                !holds(left, rid, kind) && !holds(left, txid, kind) && !holds(left, rxid, kind)
        }),
{
}

/// Cancel after send and before the body is read: `read_stream` fails with
/// `Canceled` at its gate, so no frame is pushed at all.
pub proof fn lemma_cancel_before_read<T>(
    m: Map<ResourceId, Slot<T>>,
    bodyid: ResourceId,
    txid: ResourceId,
    rxid: ResourceId,
)
    requires
        holds(m, bodyid, ResourceKind::Body),
        holds(m, txid, ResourceKind::AbortSender),
        holds(m, rxid, ResourceKind::AbortReceiver),
        m[rxid].peer == txid,
    ensures
        read_gate(after_cancel(m, txid), bodyid, rxid) is Canceled,
        !after_begin_read(after_cancel(m, txid), bodyid, rxid, txid).contains_key(bodyid),
{
}

/// A body is read once: whatever `read_stream` decided the first time, the
/// body is gone afterwards, and a second attempt on its handle fails.
pub proof fn lemma_body_is_read_once<T>(
    m: Map<ResourceId, Slot<T>>,
    bodyid: ResourceId,
    rxid: ResourceId,
    txid: ResourceId,
    again_rxid: ResourceId,
)
    requires
        holds(m, bodyid, ResourceKind::Body),
    ensures
        read_gate(after_begin_read(m, bodyid, rxid, txid), bodyid, again_rxid) is BodyGone,
{
}

/// Cancel fires once: the first `cancel` removes the sending half, so a
/// second one finds nothing under the handle and leaves the table as it is.
pub proof fn lemma_cancel_fires_once<T>(m: Map<ResourceId, Slot<T>>, txid: ResourceId)
    requires
        holds(m, txid, ResourceKind::AbortSender),
    ensures
        after_cancel(m, txid) == m.remove(txid),
        !holds(after_cancel(m, txid), txid, ResourceKind::AbortSender),
        after_cancel(after_cancel(m, txid), txid) == after_cancel(m, txid),
{
}

/// A cancellation reaches every receiver of the pair, also one that is tested
/// only later: once the sending half is gone the signal stays raised in
/// every later state of the manager.
pub proof fn lemma_signal_stays_raised<W, B>(
    before: Sessions<W, B>,
    after: Sessions<W, B>,
    rxid: ResourceId,
)
    requires
        before.wf(),
        before.precedes(&after),
        holds(before@, rxid, ResourceKind::AbortReceiver),
        holds(after@, rxid, ResourceKind::AbortReceiver),
        signal_raised(before@, rxid),
    ensures
        signal_raised(after@, rxid),
{
    before.lemma_entries_are_sound(rxid);
}

/// A resource is released once: a handle that was handed out and names
/// nothing any more names nothing in any later state of the manager.
pub proof fn lemma_released_stays_released<W, B>(
    before: Sessions<W, B>,
    after: Sessions<W, B>,
    rid: ResourceId,
)
    requires
        before.precedes(&after),
        rid < before.next_id(),
        !before@.contains_key(rid),
    ensures
        !after@.contains_key(rid),
{
}

} // verus!
