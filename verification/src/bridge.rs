//! Push-to-pull subscription bridge: the decision core that turns an
//! externally driven message stream into a cancellable sequence. The
//! runner (pull: the consumer's own loop; push: a background task) hands
//! every incoming message to `on_message` and obeys the answer: deliver,
//! skip a message that failed to decode, or stop because the subscriber
//! unsubscribed or the connection dropped. Once inactive, a subscription
//! never delivers again and never reactivates, so the runner's loop ends
//! deterministically and releases its resources.
use vstd::prelude::*;

verus! {

/// What the runner must do with one incoming message.
pub enum Delivery<V> {
    /// Hand the payload to the subscriber.
    Deliver(V),
    /// The payload did not decode: log it, skip it, carry on.
    Skip,
    /// The subscription is over: deliver nothing and stop the loop.
    Stopped,
}

/// The decision for one message: an active subscription delivers decoded
/// payloads and skips decode failures; an inactive one delivers nothing.
pub open spec fn spec_delivery<V>(active: bool, decoded: Option<V>) -> Delivery<V> {
    if !active {
        Delivery::Stopped
    } else {
        match decoded {
            Option::Some(v) => Delivery::Deliver(v),
            Option::None => Delivery::Skip,
        }
    }
}

/// The decisions for a whole run of incoming messages under one
/// activation state.
pub open spec fn spec_deliveries<V>(active: bool, msgs: Seq<Option<V>>) -> Seq<Delivery<V>> {
    msgs.map_values(|m: Option<V>| spec_delivery(active, m))
}

/// One subscriber's view of a channel subscription.
pub struct Subscription {
    channel: String,
    active: bool,
}

impl Subscription {
    /// The channel subscribed to.
    pub closed spec fn spec_channel(self) -> Seq<char> {
        self.channel@
    }

    /// Whether messages are still delivered.
    pub closed spec fn spec_active(self) -> bool {
        self.active
    }

    /// Opens a subscription on a channel.
    pub fn subscribe(channel: String) -> (r: Subscription)
        ensures
            r.spec_channel() == channel@,
            r.spec_active(),
    {
        Subscription { channel, active: true }
    }

    /// The channel subscribed to.
    pub fn channel(&self) -> (r: &String)
        ensures
            r@ == self.spec_channel(),
    {
        &self.channel
    }

    /// Whether messages are still delivered.
    pub fn is_active(&self) -> (r: bool)
        ensures
            r == self.spec_active(),
    {
        self.active
    }

    /// One incoming message, already decoded by the caller-supplied codec
    /// (`None` for a payload that failed to decode). A message never
    /// changes the activation state: in particular, a decode failure is
    /// skipped without ending the subscription, and an inactive
    /// subscription stays inactive whatever else is published.
    pub fn on_message<V>(&mut self, decoded: Option<V>) -> (r: Delivery<V>)
        ensures
            *final(self) == *old(self),
            r == spec_delivery(old(self).spec_active(), decoded),
    {
        if !self.active {
            Delivery::Stopped
        } else {
            match decoded {
                Option::Some(v) => Delivery::Deliver(v),
                Option::None => Delivery::Skip,
            }
        }
    }

    /// Ends delivery at the subscriber's request.
    pub fn unsubscribe(&mut self)
        ensures
            !final(self).spec_active(),
            final(self).spec_channel() == old(self).spec_channel(),
    {
        self.active = false;
    }

    /// Ends delivery because the underlying connection dropped.
    pub fn connection_lost(&mut self)
        ensures
            !final(self).spec_active(),
            final(self).spec_channel() == old(self).spec_channel(),
    {
        self.active = false;
    }
}

/// After an unsubscribe returns, no further message is delivered to that
/// subscriber, however long publishing continues: every decision on an
/// inactive subscription is to stop, never to deliver.
pub proof fn lemma_no_delivery_after_unsubscribe<V>(msgs: Seq<Option<V>>)
    ensures
        forall|i: int|
            0 <= i < msgs.len() ==> spec_deliveries(false, msgs)[i] == Delivery::<V>::Stopped,
{
}

} // verus!
