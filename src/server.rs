use vstd::prelude::*;

use crate::error::Error;
use crate::frame::{
    buffers_view, status_frame, Frame, FrameView, STATUS_ERROR, STATUS_FOUND, STATUS_OK,
};
use crate::record::{
    hash_at, MAX_KEY_LEN, signature_bytes, user_bytes, Signature, SignatureView, User, UserView,
};
use crate::storage::{signature_id, user_id, LocalStorage, Namespace, StoreOp, StoreWrite};

verus! {

/// Opcode of a request that registers a user.
pub const OP_SET_USER: u8 = 0;

/// Opcode of a request that looks up a user.
pub const OP_GET_USER: u8 = 1;

/// Opcode of a request that lists the signatures of an object.
pub const OP_GET_OBJ: u8 = 2;

/// Opcode of a request that looks up a signature record.
pub const OP_GET_SIG: u8 = 3;

/// Opcode of a request that opens the two-phase exchange which extends the chain.
pub const OP_ENQUEUE: u8 = 4;

/// How long, in milliseconds, the serial worker waits for a submitted signature.
pub const ENQUEUE_TIMEOUT_MS: i32 = 1000;

/// A request, as a framed message carries it.
pub ghost enum RequestView {
    SetUser(UserView),
    GetUser(Seq<u8>),
    GetObj(Seq<u8>),
    GetSig(Seq<u8>),
    Enqueue,
}

/// The request that a frame holds, or `None` where the frame is malformed: no opcode, an
/// unknown one, a missing buffer, an identifier that is not 32 bytes long, or a key longer
/// than `MAX_KEY_LEN`.
pub open spec fn parse_request(f: FrameView) -> Option<RequestView> {
    match f.code {
        None => None,
        Some(c) => if c == OP_SET_USER {
            if f.buffers.len() >= 2 && f.buffers[0].len() <= MAX_KEY_LEN {
                Some(RequestView::SetUser(UserView { key: f.buffers[0], username: f.buffers[1] }))
            } else {
                None
            }
        } else if c == OP_GET_USER || c == OP_GET_OBJ || c == OP_GET_SIG {
            if f.buffers.len() >= 1 && f.buffers[0].len() == 32 {
                if c == OP_GET_USER {
                    Some(RequestView::GetUser(f.buffers[0]))
                } else if c == OP_GET_OBJ {
                    Some(RequestView::GetObj(f.buffers[0]))
                } else {
                    Some(RequestView::GetSig(f.buffers[0]))
                }
            } else {
                None
            }
        } else if c == OP_ENQUEUE {
            Some(RequestView::Enqueue)
        } else {
            None
        },
    }
}

/// The reply to a write: `STATUS_OK` on success, `STATUS_ERROR` on any failure.
pub open spec fn status_reply(r: Result<(), Error>) -> FrameView {
    status_frame(if r is Ok { STATUS_OK } else { STATUS_ERROR })
}

/// The reply to a user lookup: not found, found with the name then the key, or an error.
pub open spec fn user_reply(r: Result<Option<UserView>, Error>) -> FrameView {
    match r {
        Ok(None) => status_frame(STATUS_OK),
        Ok(Some(u)) => FrameView { code: Some(STATUS_FOUND), buffers: seq![u.username, u.key] },
        Err(_) => status_frame(STATUS_ERROR),
    }
}

/// The reply to an object lookup: not found, found with one buffer per signature identifier,
/// or an error.
pub open spec fn obj_reply(r: Result<Option<Seq<Seq<u8>>>, Error>) -> FrameView {
    match r {
        Ok(None) => status_frame(STATUS_OK),
        Ok(Some(ids)) => FrameView { code: Some(STATUS_FOUND), buffers: ids },
        Err(_) => status_frame(STATUS_ERROR),
    }
}

/// The reply to a signature lookup: not found, found with its four fields, or an error.
pub open spec fn sig_reply(r: Result<Option<SignatureView>, Error>) -> FrameView {
    match r {
        Ok(None) => status_frame(STATUS_OK),
        Ok(Some(s)) => FrameView {
            code: Some(STATUS_FOUND),
            buffers: seq![s.obj, s.user, s.prev_sig, s.signature],
        },
        Err(_) => status_frame(STATUS_ERROR),
    }
}

/// What a worker does with a connection after a request.
#[derive(Debug)]
pub enum ClientAction {
    /// Send the reply and keep serving the connection.
    Respond(Frame),
    /// Hand the connection to the serial worker.
    Enqueue,
    /// Drop the connection.
    Disconnect,
}

impl ClientAction {
    pub open spec fn responds(&self, f: FrameView) -> bool {
        match self {
            ClientAction::Respond(m) => m@ == f,
            _ => false,
        }
    }
}

fn user_frame(r: Result<Option<User>, Error>) -> (f: Frame)
    ensures
        f@ == user_reply(
            match r {
                Ok(Some(u)) => Ok(Some(u@)),
                Ok(None) => Ok(None),
                Err(e) => Err(e),
            },
        ),
{
    match r {
        Ok(None) => Frame::with_code(STATUS_OK),
        Ok(Some(u)) => {
            let mut f = Frame::with_code(STATUS_FOUND);
            f.push_buffer(u.username.as_slice());
            f.push_buffer(u.key.as_slice());
            assert(f@.buffers =~= seq![u@.username, u@.key]);
            f
        },
        Err(_) => Frame::with_code(STATUS_ERROR),
    }
}

fn sig_frame(r: Result<Option<Signature>, Error>) -> (f: Frame)
    ensures
        f@ == sig_reply(
            match r {
                Ok(Some(s)) => Ok(Some(s@)),
                Ok(None) => Ok(None),
                Err(e) => Err(e),
            },
        ),
{
    match r {
        Ok(None) => Frame::with_code(STATUS_OK),
        Ok(Some(s)) => {
            let mut f = Frame::with_code(STATUS_FOUND);
            f.push_buffer(s.obj.as_slice());
            f.push_buffer(s.user.as_slice());
            f.push_buffer(s.prev_sig.as_slice());
            f.push_buffer(s.signature.as_slice());
            assert(f@.buffers =~= seq![s@.obj, s@.user, s@.prev_sig, s@.signature]);
            f
        },
        Err(_) => Frame::with_code(STATUS_ERROR),
    }
}

fn obj_frame(r: Result<Option<crate::record::Object>, Error>) -> (f: Frame)
    ensures
        f@ == obj_reply(
            match r {
                Ok(Some(o)) => Ok(Some(o@)),
                Ok(None) => Ok(None),
                Err(e) => Err(e),
            },
        ),
{
    match r {
        Ok(None) => Frame::with_code(STATUS_OK),
        Ok(Some(o)) => {
            let mut f = Frame::with_code(STATUS_FOUND);
            let mut i: usize = 0;
            while i < o.sigs.len()
                invariant
                    0 <= i <= o.sigs@.len(),
                    f@.code == Some(STATUS_FOUND),
                    f@.buffers == o@.subrange(0, i as int),
                decreases o.sigs@.len() - i,
            {
                f.push_buffer(o.sigs[i].as_slice());
                i = i + 1;
                assert(f@.buffers =~= o@.subrange(0, i as int));
            }
            assert(o@.subrange(0, o@.len() as int) =~= o@);
            f
        },
        Err(_) => Frame::with_code(STATUS_ERROR),
    }
}

/// Serves one request against the store, under the store's lock. A malformed request drops
/// the connection; a lookup replies with what it found; a registration replies with its
/// status and returns the write that makes it durable; an enqueue hands the connection over.
pub fn process_message(frame: &Frame, storage: &mut LocalStorage) -> (r: (
    ClientAction,
    Vec<StoreWrite>,
))
    requires
        old(storage).wf(),
    ensures
        final(storage).wf(),
        match parse_request(frame@) {
            None => r.0 is Disconnect && r.1@.len() == 0 && final(storage)@ == old(storage)@,
            Some(RequestView::Enqueue) => r.0 is Enqueue && r.1@.len() == 0 && final(storage)@
                == old(storage)@,
            Some(RequestView::SetUser(u)) => {
                &&& final(storage)@ == old(storage)@.apply(StoreOp::SetUser(u))
                &&& r.0.responds(status_reply(old(storage)@.set_user_outcome(u)))
                &&& r.1@.len() == if old(storage)@.set_user_outcome(u) is Ok {
                    1int
                } else {
                    0int
                }
                &&& r.1@.len() == 1 ==> r.1@[0].creates(Namespace::User, user_id(u), user_bytes(u))
            },
            Some(RequestView::GetUser(h)) => {
                &&& final(storage)@ == old(storage)@
                &&& r.0.responds(user_reply(old(storage)@.user_lookup(h)))
                &&& r.1@.len() == 0
            },
            Some(RequestView::GetObj(h)) => {
                &&& final(storage)@ == old(storage)@
                &&& r.0.responds(obj_reply(old(storage)@.obj_lookup(h)))
                &&& r.1@.len() == 0
            },
            Some(RequestView::GetSig(h)) => {
                &&& final(storage)@ == old(storage)@
                &&& r.0.responds(sig_reply(old(storage)@.sig_lookup(h)))
                &&& r.1@.len() == 0
            },
        },
{
    let code = match frame.code {
        Some(c) => c,
        None => {
            return (ClientAction::Disconnect, Vec::new());
        },
    };
    if code == OP_SET_USER {
        if frame.buffers.len() < 2 || frame.buffers[0].len() > MAX_KEY_LEN as usize {
            return (ClientAction::Disconnect, Vec::new());
        }
        let mut key: Vec<u8> = Vec::new();
        crate::record::push_all(&mut key, frame.buffers[0].as_slice());
        let mut username: Vec<u8> = Vec::new();
        crate::record::push_all(&mut username, frame.buffers[1].as_slice());
        let u = User { username, key };
        assert(u@ == (UserView { key: frame@.buffers[0], username: frame@.buffers[1] }));
        let mut writes: Vec<StoreWrite> = Vec::new();
        match storage.set_user(u) {
            Ok(w) => {
                writes.push(w);
                (ClientAction::Respond(Frame::with_code(STATUS_OK)), writes)
            },
            Err(_) => (ClientAction::Respond(Frame::with_code(STATUS_ERROR)), writes),
        }
    } else if code == OP_GET_USER || code == OP_GET_OBJ || code == OP_GET_SIG {
        if frame.buffers.len() < 1 || frame.buffers[0].len() != 32 {
            return (ClientAction::Disconnect, Vec::new());
        }
        let h = frame.buffers[0].as_slice();
        let reply = if code == OP_GET_USER {
            user_frame(storage.get_user(h))
        } else if code == OP_GET_OBJ {
            obj_frame(storage.get_obj(h))
        } else {
            sig_frame(storage.get_sig(h))
        };
        (ClientAction::Respond(reply), Vec::new())
    } else if code == OP_ENQUEUE {
        (ClientAction::Enqueue, Vec::new())
    } else {
        (ClientAction::Disconnect, Vec::new())
    }
}

/// The signature record that the follow-up message of an enqueue exchange submits: the object,
/// the signer and the tip it extends, each 32 bytes, then a non-empty signature. Buffers past
/// the fourth are ignored.
pub open spec fn parse_submission(b: Seq<Seq<u8>>) -> Option<SignatureView> {
    if b.len() >= 4 && b[0].len() == 32 && b[1].len() == 32 && b[2].len() == 32 && b[3].len()
        > 0 {
        Some(SignatureView { obj: b[0], user: b[1], prev_sig: b[2], signature: b[3] })
    } else {
        None
    }
}

/// The message that opens an enqueue exchange: `STATUS_FOUND` and the tip, or `STATUS_OK`
/// while the chain is empty.
pub open spec fn tip_frame(prev: Option<Seq<u8>>) -> FrameView {
    match prev {
        Some(t) => FrameView { code: Some(STATUS_FOUND), buffers: seq![t] },
        None => status_frame(STATUS_OK),
    }
}

/// Where an enqueue exchange stands.
#[derive(Debug, Clone, Copy, PartialEq, Eq, Structural)]
pub enum EnqueueState {
    /// The tip has not been sent yet.
    AwaitingTip,
    /// The tip was sent; the submitted signature is awaited.
    AwaitingSig,
    /// The exchange is over.
    Done,
}

/// What happened on the connection since the last step.
#[derive(Debug)]
pub enum EnqueueEvent {
    /// The serial worker took the connection over.
    Begin,
    /// A message arrived, with these buffers.
    Received(Vec<Vec<u8>>),
    /// No message arrived within `ENQUEUE_TIMEOUT_MS`, or reading failed.
    TimedOut,
}

/// What the serial worker does next.
#[derive(Debug)]
pub enum EnqueueAction {
    /// Send the message, then wait up to `ENQUEUE_TIMEOUT_MS` for the reply.
    SendAndAwait(Frame),
    /// Send the message and end the exchange.
    SendAndClose(Frame),
    /// End the exchange without sending anything.
    Close,
}

impl EnqueueAction {
    pub open spec fn sends_and_awaits(&self, f: FrameView) -> bool {
        match self {
            EnqueueAction::SendAndAwait(m) => m@ == f,
            _ => false,
        }
    }

    pub open spec fn sends_and_closes(&self, f: FrameView) -> bool {
        match self {
            EnqueueAction::SendAndClose(m) => m@ == f,
            _ => false,
        }
    }
}

/// One two-phase exchange that extends the chain. The serial worker holds the store's lock
/// from the first step to the last, so the tip it sends is the tip that the submitted
/// signature is committed on.
pub struct EnqueueSession {
    pub state: EnqueueState,
}

impl EnqueueSession {
    /// A session that has not sent the tip yet.
    pub fn new() -> (r: EnqueueSession)
        ensures
            r.state == EnqueueState::AwaitingTip,
    {
        EnqueueSession { state: EnqueueState::AwaitingTip }
    }

    /// Advances the exchange by one event. `Begin` sends the tip. A well-formed submission is
    /// committed and answered with its status, together with the writes that make the commit
    /// durable; a malformed one, a timeout, or an event out of order ends the exchange silently
    /// and leaves the store unchanged.
    pub fn step(&mut self, event: EnqueueEvent, storage: &mut LocalStorage) -> (r: (
        EnqueueAction,
        Vec<StoreWrite>,
    ))
        requires
            old(storage).wf(),
        ensures
            final(storage).wf(),
            old(self).state == EnqueueState::AwaitingTip && event is Begin ==> {
                &&& final(self).state == EnqueueState::AwaitingSig
                &&& r.0.sends_and_awaits(tip_frame(old(storage)@.prev))
                &&& r.1@.len() == 0
                &&& final(storage)@ == old(storage)@
            },
            old(self).state == EnqueueState::AwaitingSig && event is Received ==> {
                &&& final(self).state == EnqueueState::Done
                &&& match parse_submission(buffers_view(event->Received_0@)) {
                    None => r.0 is Close && r.1@.len() == 0 && final(storage)@ == old(storage)@,
                    Some(s) => {
                        &&& final(storage)@ == old(storage)@.apply(StoreOp::AddSig(s))
                        &&& r.0.sends_and_closes(status_reply(old(storage)@.add_sig_outcome(s)))
                        &&& r.1@.len() == if old(storage)@.add_sig_outcome(s) is Ok {
                            3int
                        } else {
                            0int
                        }
                        &&& r.1@.len() == 3 ==> {
                            &&& r.1@[0].creates(Namespace::Sig, signature_id(s), signature_bytes(s))
                            &&& r.1@[1].appends(Namespace::Obj, s.obj, signature_id(s))
                            &&& r.1@[2].sets_tip(signature_id(s))
                        }
                    },
                }
            },
            !(old(self).state == EnqueueState::AwaitingTip && event is Begin) && !(old(self).state
                == EnqueueState::AwaitingSig && event is Received) ==> {
                &&& final(self).state == EnqueueState::Done
                &&& r.0 is Close
                &&& r.1@.len() == 0
                &&& final(storage)@ == old(storage)@
            },
    {
        match (self.state, event) {
            (EnqueueState::AwaitingTip, EnqueueEvent::Begin) => {
                self.state = EnqueueState::AwaitingSig;
                let f = match storage.get_prev() {
                    Some(tip) => {
                        let mut f = Frame::with_code(STATUS_FOUND);
                        f.push_buffer(tip.as_slice());
                        assert(f@.buffers =~= seq![tip@]);
                        f
                    },
                    None => Frame::with_code(STATUS_OK),
                };
                (EnqueueAction::SendAndAwait(f), Vec::new())
            },
            (EnqueueState::AwaitingSig, EnqueueEvent::Received(b)) => {
                self.state = EnqueueState::Done;
                if b.len() < 4 || b[0].len() != 32 || b[1].len() != 32 || b[2].len() != 32
                    || b[3].len() == 0 {
                    return (EnqueueAction::Close, Vec::new());
                }
                let obj = hash_at(b[0].as_slice(), 0);
                let user = hash_at(b[1].as_slice(), 0);
                let prev_sig = hash_at(b[2].as_slice(), 0);
                let mut signature: Vec<u8> = Vec::new();
                crate::record::push_all(&mut signature, b[3].as_slice());
                let sig = Signature { obj, user, prev_sig, signature };
                assert(obj@ =~= buffers_view(b@)[0]);
                assert(user@ =~= buffers_view(b@)[1]);
                assert(prev_sig@ =~= buffers_view(b@)[2]);
                assert(sig@ == parse_submission(buffers_view(b@)).unwrap());
                match storage.add_sig(sig) {
                    Ok(writes) => (EnqueueAction::SendAndClose(Frame::with_code(STATUS_OK)), writes),
                    Err(_) => (
                        EnqueueAction::SendAndClose(Frame::with_code(STATUS_ERROR)),
                        Vec::new(),
                    ),
                }
            },
            _ => {
                self.state = EnqueueState::Done;
                (EnqueueAction::Close, Vec::new())
            },
        }
    }
}

/// Hands each new connection to the next worker in turn.
pub struct RoundRobin {
    next: usize,
    count: usize,
}

impl RoundRobin {
    pub closed spec fn next_spec(&self) -> nat {
        self.next as nat
    }

    pub closed spec fn count_spec(&self) -> nat {
        self.count as nat
    }

    pub open spec fn wf(&self) -> bool {
        self.next_spec() < self.count_spec()
    }

    /// A dispatcher over `count` workers that starts with the first.
    pub fn new(count: usize) -> (r: RoundRobin)
        requires
            count > 0,
        ensures
            r.wf(),
            r.next_spec() == 0,
            r.count_spec() == count,
    {
        RoundRobin { next: 0, count }
    }

    /// The worker for the next connection; the one after it comes next, wrapping to the first.
    pub fn next_worker(&mut self) -> (r: usize)
        requires
            old(self).wf(),
        ensures
            final(self).wf(),
            r == old(self).next_spec(),
            final(self).count_spec() == old(self).count_spec(),
            final(self).next_spec() == (old(self).next_spec() + 1) % old(self).count_spec(),
    {
        let r = self.next;
        self.next = self.next + 1;
        if self.next == self.count {
            self.next = 0;
            proof {
                vstd::arithmetic::div_mod::lemma_mod_self_0(self.count as int);
            }
        } else {
            proof {
                vstd::arithmetic::div_mod::lemma_small_mod(self.next as nat, self.count as nat);
            }
        }
        r
    }
}

} // verus!
