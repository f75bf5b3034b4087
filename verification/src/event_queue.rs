use vstd::prelude::*;

use crate::errors::{NodeError, NodeResult};
use crate::event::{Event, Topic};
use crate::subscriber::{
    handler_task_views, HandlerTask, HandlerTaskView, ReadyToHandleRandomnessTaskSubscriber,
    Subscriber,
};
use crate::task_cache::task_views;

verus! {

/// The closed set of subscriber kinds the queue can hold; the tag
/// settles dispatch where the source once downcast through a raw
/// pointer.
pub enum SubscriberImpl {
    Randomness(ReadyToHandleRandomnessTaskSubscriber),
}

/// The ghost mirror of a registered subscriber.
pub enum SubscriberImplView {
    Randomness { chain_id: u32, id_address: Seq<u8> },
}

impl View for SubscriberImpl {
    type V = SubscriberImplView;

    open spec fn view(&self) -> SubscriberImplView {
        match self {
            SubscriberImpl::Randomness(s) => SubscriberImplView::Randomness {
                chain_id: s.chain_id,
                id_address: s.spec_id_address(),
            },
        }
    }
}

/// The topic a registered subscriber belongs on.
pub open spec fn spec_subscriber_topic(sv: SubscriberImplView) -> Topic {
    match sv {
        SubscriberImplView::Randomness { chain_id, .. } => Topic::ReadyToHandleRandomnessTask(
            chain_id,
        ),
    }
}

/// What a registered subscriber answers for an event.
pub open spec fn spec_subscriber_notify(sv: SubscriberImplView, event: &Event) -> NodeResult<
    Seq<HandlerTaskView>,
> {
    match sv {
        SubscriberImplView::Randomness { chain_id, id_address } => match event {
            Event::ReadyToHandleRandomnessTask(p) => Ok(
                seq![
                    HandlerTaskView::Randomness {
                        chain_id,
                        id_address,
                        tasks: task_views(p.tasks@),
                    },
                ],
            ),
            _ => Err(NodeError::SubscriberOnWrongTopic),
        },
    }
}

impl SubscriberImpl {
    pub fn topic(&self) -> (t: Topic)
        ensures
            t == spec_subscriber_topic(self@),
    {
        match self {
            SubscriberImpl::Randomness(s) => s.topic(),
        }
    }

    pub fn notify(&self, event: &Event) -> (r: NodeResult<Vec<HandlerTask>>)
        ensures
            r is Ok <==> spec_subscriber_notify(self@, event) is Ok,
            r matches Ok(v) ==> spec_subscriber_notify(self@, event) matches Ok(s)
                && handler_task_views(v@) == s,
            r matches Err(e) ==> spec_subscriber_notify(self@, event) matches Err(e2) && e == e2,
    {
        match self {
            SubscriberImpl::Randomness(s) => s.notify(event),
        }
    }
}

/// One subscriber's share of a published event: who was notified and
/// the handler jobs it asked for.
pub struct Delivery {
    pub subscriber_index: usize,
    pub actions: Vec<HandlerTask>,
}

/// The ghost mirror of a delivery.
#[verifier::ext_equal]
pub struct DeliveryView {
    pub subscriber_index: usize,
    pub actions: Seq<HandlerTaskView>,
}

impl View for Delivery {
    type V = DeliveryView;

    open spec fn view(&self) -> DeliveryView {
        DeliveryView { subscriber_index: self.subscriber_index, actions: handler_task_views(self.actions@) }
    }
}

/// The ghost mirrors of a list of deliveries.
pub open spec fn delivery_views(s: Seq<Delivery>) -> Seq<DeliveryView> {
    Seq::new(s.len(), |i: int| s[i]@)
}

/// What publishing an event yields against a subscriber table: one
/// delivery per subscriber registered under the event's topic, in
/// registration order.
pub open spec fn spec_deliveries(s: Seq<(Topic, SubscriberImplView)>, event: &Event) -> Seq<
    DeliveryView,
>
    decreases s.len(),
{
    if s.len() == 0 {
        Seq::empty()
    } else {
        let prefix = spec_deliveries(s.drop_last(), event);
        if s.last().0 == event.spec_topic() {
            prefix + seq![
                DeliveryView {
                    subscriber_index: (s.len() - 1) as usize,
                    actions: spec_subscriber_notify(s.last().1, event).unwrap(),
                },
            ]
        } else {
            prefix
        }
    }
}

/// The process-wide publish/subscribe table: topics to subscribers,
/// in subscription order.
pub struct EventQueue {
    subscribers: Vec<(Topic, SubscriberImpl)>,
}

impl View for EventQueue {
    type V = Seq<(Topic, SubscriberImplView)>;

    closed spec fn view(&self) -> Seq<(Topic, SubscriberImplView)> {
        Seq::new(self.subscribers@.len(), |i: int| (self.subscribers@[i].0, self.subscribers@[i].1@))
    }
}

impl EventQueue {
    /// Every subscriber sits under the one topic it handles; the
    /// registration check below keeps it that way, which is what
    /// makes every delivered notification well-typed.
    pub open spec fn wf(&self) -> bool {
        forall|i: int|
            0 <= i < self@.len() ==> (#[trigger] self@[i]).0 == spec_subscriber_topic(self@[i].1)
    }

    pub fn new() -> (r: EventQueue)
        ensures
            r@ == Seq::<(Topic, SubscriberImplView)>::empty(),
            r.wf(),
    {
        let r = EventQueue { subscribers: Vec::new() };
        proof {
            assert(r@ =~= Seq::<(Topic, SubscriberImplView)>::empty());
        }
        r
    }

    /// Appends a subscriber under a topic. A subscriber offered under
    /// a topic it does not handle is refused: that is a wiring fault,
    /// surfaced at deployment, never at delivery.
    pub fn subscribe(&mut self, topic: Topic, subscriber: SubscriberImpl) -> (r: NodeResult<()>)
        requires
            old(self).wf(),
        ensures
            final(self).wf(),
            r is Ok <==> topic == spec_subscriber_topic(subscriber@),
            r is Ok ==> final(self)@ == old(self)@.push((topic, subscriber@)),
            r matches Err(e) ==> e == NodeError::SubscriberOnWrongTopic && final(self)@ == old(
                self,
            )@,
    {
        if topic == subscriber.topic() {
            let ghost pre = self@;
            let ghost sub_view = subscriber@;
            self.subscribers.push((topic, subscriber));
            proof {
                assert(self@ =~= pre.push((topic, sub_view)));
                assert(self.wf());
            }
            Ok(())
        } else {
            Err(NodeError::SubscriberOnWrongTopic)
        }
    }

    /// How many subscribers are registered.
    pub fn len(&self) -> (r: usize)
        ensures
            r == self@.len(),
    {
        self.subscribers.len()
    }

    /// Delivers an event to every subscriber registered under its
    /// topic, in subscription order, collecting the handler jobs each
    /// one asks for. Publishing with no subscribers is a silent
    /// no-op; a well-formed queue never refuses a delivery.
    pub fn publish(&self, event: &Event) -> (r: Vec<Delivery>)
        requires
            self.wf(),
        ensures
            delivery_views(r@) == spec_deliveries(self@, event),
    {
        let mut out: Vec<Delivery> = Vec::new();
        let topic = event.topic();
        let n = self.subscribers.len();
        let mut i: usize = 0;
        proof {
            assert(delivery_views(out@) =~= spec_deliveries(self@.take(0), event));
        }
        while i < n
            invariant
                self.wf(),
                n == self@.len(),
                i <= n,
                topic == event.spec_topic(),
                delivery_views(out@) == spec_deliveries(self@.take(i as int), event),
            decreases n - i,
        {
            let ghost pre_out = delivery_views(out@);
            if self.subscribers[i].0 == topic {
                proof {
                    assert(self@[i as int].0 == event.spec_topic());
                    assert(spec_subscriber_topic(self@[i as int].1) == event.spec_topic());
                }
                match self.subscribers[i].1.notify(event) {
                    Ok(actions) => {
                        out.push(Delivery { subscriber_index: i, actions });
                    },
                    Err(_) => {
                        proof {
                            assert(spec_subscriber_notify(self@[i as int].1, event) is Ok);
                            assert(false);
                        }
                    },
                }
            }
            proof {
                assert(self@.take(i + 1).drop_last() =~= self@.take(i as int));
                assert(self@.take(i + 1).last() == self@[i as int]);
                assert(delivery_views(out@) =~= spec_deliveries(self@.take(i + 1), event));
            }
            i += 1;
        }
        proof {
            assert(self@.take(n as int) =~= self@);
        }
        out
    }
}

/// Every subscriber registered under a published event's topic at
/// publish time is notified exactly once: each delivery names a
/// distinct registered subscriber of that topic, deliveries come in
/// registration order, and no such subscriber is passed over.
pub proof fn lemma_publish_delivers_exactly_once(
    s: Seq<(Topic, SubscriberImplView)>,
    event: &Event,
)
    requires
        s.len() <= usize::MAX,
    ensures
        forall|k: int|
            0 <= k < spec_deliveries(s, event).len() ==> {
                let d = #[trigger] spec_deliveries(s, event)[k];
                &&& 0 <= d.subscriber_index < s.len()
                &&& s[d.subscriber_index as int].0 == event.spec_topic()
                &&& d.actions == spec_subscriber_notify(
                    s[d.subscriber_index as int].1,
                    event,
                ).unwrap()
            },
        forall|k1: int, k2: int|
            0 <= k1 < k2 < spec_deliveries(s, event).len() ==> spec_deliveries(
                s,
                event,
            )[k1].subscriber_index < spec_deliveries(s, event)[k2].subscriber_index,
        forall|i: int|
            0 <= i < s.len() && (#[trigger] s[i]).0 == event.spec_topic() ==> exists|k: int|
                0 <= k < spec_deliveries(s, event).len() && spec_deliveries(
                    s,
                    event,
                )[k].subscriber_index == i,
    decreases s.len(),
{
    if s.len() > 0 {
        let d = s.drop_last();
        lemma_publish_delivers_exactly_once(d, event);
        assert forall|i: int|
            0 <= i < s.len() && (#[trigger] s[i]).0 == event.spec_topic() implies exists|k: int|
            0 <= k < spec_deliveries(s, event).len() && spec_deliveries(
                s,
                event,
            )[k].subscriber_index == i by {
            if i == s.len() - 1 {
                let k = spec_deliveries(s, event).len() - 1;
                assert(spec_deliveries(s, event)[k].subscriber_index == i);
            } else {
                assert(d[i] == s[i]);
                let k = choose|k: int|
                    0 <= k < spec_deliveries(d, event).len() && spec_deliveries(
                        d,
                        event,
                    )[k].subscriber_index == i;
                assert(spec_deliveries(s, event)[k].subscriber_index == i);
            }
        }
    }
}

} // verus!
