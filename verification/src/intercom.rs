//! Point-to-point messaging with a service: a mailbox that keeps requests in
//! the order in which they came, and a single-use slot for each reply.

use vstd::prelude::*;

verus! {

/// Why a request to a service got no reply.
#[derive(Clone, Copy, Debug, PartialEq, Eq, Structural)]
pub enum IntercomError {
    /// The mailbox of the service is closed: the request was not taken.
    MailboxClosed,
    /// The slot for the reply was given up before it was filled.
    ReplyLost,
}

/// The place for the one reply to one request. It names the caller that
/// waits for the reply, and it is filled at most once.
#[derive(Debug)]
pub struct ReplySlot<R> {
    caller: u64,
    reply: Option<R>,
}

impl<R> ReplySlot<R> {
    /// The caller that the reply is for.
    pub closed spec fn caller(&self) -> u64 {
        self.caller
    }

    /// The reply, once the slot is filled.
    pub closed spec fn reply(&self) -> Option<R> {
        self.reply
    }

    /// An empty slot for a reply to `caller`.
    pub fn new(caller: u64) -> (slot: Self)
        ensures
            slot.caller() == caller,
            slot.reply() is None,
    {
        ReplySlot { caller, reply: None }
    }

    /// The caller that the reply is for.
    pub fn addressee(&self) -> (caller: u64)
        ensures
            caller == self.caller(),
    {
        self.caller
    }

    pub fn is_filled(&self) -> (filled: bool)
        ensures
            filled == self.reply() is Some,
    {
        self.reply.is_some()
    }

    /// Puts `value` in the slot if it is empty. A slot that is filled keeps
    /// its reply, and `value` comes back.
    pub fn fill(&mut self, value: R) -> (result: Result<(), R>)
        ensures
            final(self).caller() == old(self).caller(),
            old(self).reply() is None ==> result is Ok && final(self).reply() == Some(value),
            old(self).reply() is Some ==> result == Err::<(), R>(value) && final(self).reply()
                == old(self).reply(),
    {
        if self.reply.is_some() {
            Err(value)
        } else {
            self.reply = Some(value);
            Ok(())
        }
    }

    /// Hands the reply to the caller. A slot that was never filled gives
    /// `ReplyLost`.
    pub fn take(self) -> (result: Result<R, IntercomError>)
        ensures
            result == (match self.reply() {
                Some(value) => Ok::<R, IntercomError>(value),
                None => Err::<R, IntercomError>(IntercomError::ReplyLost),
            }),
    {
        match self.reply {
            Some(value) => Ok(value),
            None => Err(IntercomError::ReplyLost),
        }
    }
}

/// A request to a service together with the slot for its reply. The slot of
/// a message is empty: it is filled when the message is answered, which uses
/// the message up.
#[derive(Debug)]
pub struct IntercomMessage<P, R> {
    payload: P,
    reply: ReplySlot<R>,
}

impl<P, R> IntercomMessage<P, R> {
    #[verifier::type_invariant]
    spec fn unanswered(&self) -> bool {
        self.reply.reply() is None
    }

    /// What the request asks.
    pub closed spec fn payload(&self) -> P {
        self.payload
    }

    /// The caller that sent the request.
    pub closed spec fn caller(&self) -> u64 {
        self.reply.caller()
    }

    /// The request `payload` of `caller`, with an empty slot for the reply.
    pub fn new(caller: u64, payload: P) -> (message: Self)
        ensures
            message.payload() == payload,
            message.caller() == caller,
    {
        IntercomMessage { payload, reply: ReplySlot::new(caller) }
    }

    /// What the request asks.
    pub fn request(&self) -> (payload: &P)
        ensures
            *payload == self.payload(),
    {
        &self.payload
    }

    /// The caller that sent the request.
    pub fn sender(&self) -> (caller: u64)
        ensures
            caller == self.caller(),
    {
        self.reply.addressee()
    }

    /// Answers the request: the slot comes back filled with `value` and
    /// addressed to the caller of the request.
    pub fn answer(self, value: R) -> (slot: ReplySlot<R>)
        ensures
            slot.caller() == self.caller(),
            slot.reply() == Some(value),
    {
        proof {
            use_type_invariant(&self);
        }
        let mut slot = self.reply;
        let _ = slot.fill(value);
        slot
    }

    /// Gives the request up without an answer: the slot comes back empty, and
    /// the caller that takes from it learns that the reply is lost.
    pub fn abandon(self) -> (slot: ReplySlot<R>)
        ensures
            slot.caller() == self.caller(),
            slot.reply() is None,
    {
        proof {
            use_type_invariant(&self);
        }
        self.reply
    }
}

/// A mailbox as a mathematical value: the messages that wait, oldest first,
/// and whether more are accepted.
pub struct MailboxView<M> {
    pub pending: Seq<M>,
    pub open: bool,
}

/// What a service finds when it looks in its mailbox.
#[derive(Debug)]
pub enum Received<M> {
    /// The oldest message that waited.
    Message(M),
    /// Nothing waits, and more may come: the service suspends.
    Empty,
    /// Nothing waits, and the mailbox is closed: the service exits.
    Closed,
}

/// The mailbox of one service. Many may send; the service alone receives, in
/// the order in which the messages were sent.
#[derive(Debug)]
pub struct Mailbox<M> {
    queue: Vec<M>,
    open: bool,
}

impl<M> View for Mailbox<M> {
    type V = MailboxView<M>;

    closed spec fn view(&self) -> MailboxView<M> {
        MailboxView { pending: self.queue@, open: self.open }
    }
}

impl<M> Mailbox<M> {
    /// An open mailbox in which nothing waits.
    pub fn new() -> (mailbox: Self)
        ensures
            mailbox@.pending == Seq::<M>::empty(),
            mailbox@.open,
    {
        Mailbox { queue: Vec::new(), open: true }
    }

    pub fn is_open(&self) -> (open: bool)
        ensures
            open == self@.open,
    {
        self.open
    }

    /// The number of messages that wait.
    pub fn len(&self) -> (count: usize)
        ensures
            count == self@.pending.len(),
    {
        self.queue.len()
    }

    /// Puts `message` behind the messages that wait. A closed mailbox takes
    /// nothing: the message comes back.
    pub fn send(&mut self, message: M) -> (result: Result<(), M>)
        ensures
            final(self)@.open == old(self)@.open,
            old(self)@.open ==> result is Ok && final(self)@.pending == old(self)@.pending.push(
                message,
            ),
            !old(self)@.open ==> result == Err::<(), M>(message) && final(self)@.pending
                == old(self)@.pending,
    {
        if self.open {
            self.queue.push(message);
            Ok(())
        } else {
            Err(message)
        }
    }

    /// Takes the oldest message that waits. Messages that were accepted
    /// before the mailbox was closed are still handed out.
    pub fn recv(&mut self) -> (received: Received<M>)
        ensures
            final(self)@.open == old(self)@.open,
            old(self)@.pending.len() > 0 ==> received == Received::Message(old(self)@.pending[0])
                && final(self)@.pending == old(self)@.pending.skip(1),
            old(self)@.pending.len() == 0 ==> final(self)@.pending == old(self)@.pending
                && received == (if old(self)@.open {
                Received::<M>::Empty
            } else {
                Received::<M>::Closed
            }),
    {
        if self.queue.len() > 0 {
            let message = self.queue.remove(0);
            assert(self.queue@ =~= old(self).queue@.skip(1));
            Received::Message(message)
        } else if self.open {
            Received::Empty
        } else {
            Received::Closed
        }
    }

    /// Closes the mailbox: nothing more is accepted, and the service exits
    /// once it has read what waits.
    pub fn close(&mut self)
        ensures
            !final(self)@.open,
            final(self)@.pending == old(self)@.pending,
    {
        self.open = false;
    }
}

/// The slot `slot` holds the one reply to `request`: it is addressed to the
/// caller of the request, and it is filled with an answer of `answer` to the
/// payload of the request.
pub open spec fn replies_to<P, R, F: Fn(&P) -> R>(
    slot: ReplySlot<R>,
    request: IntercomMessage<P, R>,
    answer: F,
) -> bool {
    &&& slot.caller() == request.caller()
    &&& slot.reply() matches Some(value)
    &&& call_ensures(answer, (&request.payload(),), value)
}

/// Answers every request that waits in `mailbox`, oldest first, with what
/// `answer` makes of its payload. Each request gets exactly one reply, in a
/// slot addressed to its own caller, and the replies come in the order in
/// which the requests were sent.
pub fn answer_all<P, R, F: Fn(&P) -> R>(
    mailbox: &mut Mailbox<IntercomMessage<P, R>>,
    answer: F,
) -> (replies: Vec<ReplySlot<R>>)
    requires
        forall|payload: P| call_requires(answer, (&payload,)),
    ensures
        final(mailbox)@.open == old(mailbox)@.open,
        final(mailbox)@.pending.len() == 0,
        replies.len() == old(mailbox)@.pending.len(),
        forall|i: int|
            0 <= i < replies.len() ==> replies_to(
                #[trigger] replies@[i],
                old(mailbox)@.pending[i],
                answer,
            ),
{
    let ghost requests = mailbox@.pending;
    let mut replies: Vec<ReplySlot<R>> = Vec::new();
    while mailbox.len() > 0
        invariant
            mailbox@.open == old(mailbox)@.open,
            forall|payload: P| call_requires(answer, (&payload,)),
            replies.len() + mailbox@.pending.len() == requests.len(),
            mailbox@.pending == requests.skip(replies.len() as int),
            forall|i: int|
                0 <= i < replies.len() ==> replies_to(#[trigger] replies@[i], requests[i], answer),
        decreases mailbox@.pending.len(),
    {
        let ghost done = replies.len() as int;
        match mailbox.recv() {
            Received::Message(request) => {
                assert(request == requests[done]);
                assert(requests.skip(done).skip(1) =~= requests.skip(done + 1));
                let value = answer(request.request());
                let slot = request.answer(value);
                replies.push(slot);
            },
            _ => {},
        }
    }
    replies
}

} // verus!
