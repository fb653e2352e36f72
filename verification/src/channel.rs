use vstd::prelude::*;

verus! {

/// The message sent from the entity extractor to the text resolver: one
/// request to resolve the localized texts of a produced character, carrying
/// the character's name identifier and the description identifier read from
/// its first persisted parameter row.
#[derive(Debug, Clone, Copy, PartialEq, Eq, Structural)]
pub struct NameRequest {
    pub name_id: i32,
    pub description_id: i32,
}

#[verifier::external_type_specification]
#[verifier::external_body]
#[verifier::reject_recursive_types(T)]
pub struct ExSender<T>(crossbeam::channel::Sender<T>);

#[verifier::external_type_specification]
#[verifier::external_body]
#[verifier::reject_recursive_types(T)]
pub struct ExReceiver<T>(crossbeam::channel::Receiver<T>);

/// The producer's end of the request channel. It records in ghost state the
/// exact sequence of requests that were handed to the channel, so that the
/// extractor's contract can speak about what was sent.
pub struct RequestSender {
    pub tx: crossbeam::channel::Sender<NameRequest>,
    pub sent: Ghost<Seq<NameRequest>>,
}

impl RequestSender {
    /// Wraps a sender whose channel has seen no request from this handle yet.
    pub fn new(tx: crossbeam::channel::Sender<NameRequest>) -> (r: RequestSender)
        ensures
            r.sent@ == Seq::<NameRequest>::empty(),
    {
        RequestSender { tx, sent: Ghost(Seq::empty()) }
    }

    /// Relies on crossbeam's Sender::send, which enqueues the message without
    /// blocking (the channel is unbounded) and fails only when every receiver
    /// has been dropped, handing the message back undelivered.
    #[verifier::external_body]
    pub fn send(&mut self, req: NameRequest) -> (ok: bool)
        ensures
            ok ==> final(self).sent@ == old(self).sent@.push(req),
            !ok ==> final(self).sent@ == old(self).sent@,
    {
        self.tx.send(req).is_ok()
    }
}

/// The consumer's end of the request channel. It records in ghost state the
/// exact sequence of requests taken out of the channel, so that the text
/// resolver's contract can speak about what was drained.
pub struct RequestReceiver {
    pub rx: crossbeam::channel::Receiver<NameRequest>,
    pub received: Ghost<Seq<NameRequest>>,
}

impl RequestReceiver {
    /// Wraps a receiver from which this handle has taken nothing yet.
    pub fn new(rx: crossbeam::channel::Receiver<NameRequest>) -> (r: RequestReceiver)
        ensures
            r.received@ == Seq::<NameRequest>::empty(),
    {
        RequestReceiver { rx, received: Ghost(Seq::empty()) }
    }

    /// Relies on crossbeam's Receiver::recv, which blocks until a message is
    /// available and returns it, and fails only once the channel is closed
    /// (every sender dropped) and drained.
    #[verifier::external_body]
    pub fn recv(&mut self) -> (r: Option<NameRequest>)
        ensures
            match r {
                Some(req) => final(self).received@ == old(self).received@.push(req),
                None => final(self).received@ == old(self).received@,
            },
    {
        self.rx.recv().ok()
    }
}

} // verus!
