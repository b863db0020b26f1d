use vstd::prelude::*;

use crate::component::{fits, run_replies, run_state, ComponentState, StateModel};
use crate::descriptor::{Descriptor, DescriptorModel};
use crate::message::{opt_text, Message, MessageModel, Reply};
use crate::tag::same_text;
use crate::value::{ExternalValue, Value};

verus! {

/// Where an instance stands in the custom element lifecycle.
#[derive(Clone, Copy, Debug, PartialEq, Eq, Structural)]
pub enum Lifecycle {
    Unconnected,
    Connected,
    Disconnected,
}

/// The context handed to the mounted component: the observed attribute names.
#[derive(Debug)]
pub struct Shared {
    attributes: Vec<String>,
}

pub open spec fn text_seq(v: Seq<String>) -> Seq<Seq<char>> {
    v.map_values(|s: String| s@)
}

pub open spec fn opt_text_seq(v: Seq<Option<String>>) -> Seq<Option<Seq<char>>> {
    v.map_values(|s: Option<String>| opt_text(s))
}

/// The `SetAttribute` messages that report the first `k` observed attributes
/// that the host element carries, in order.
pub open spec fn replay_upto(
    names: Seq<Seq<char>>,
    current: Seq<Option<Seq<char>>>,
    k: int,
) -> Seq<MessageModel>
    decreases k,
{
    if k <= 0 {
        Seq::empty()
    } else {
        let before = replay_upto(names, current, k - 1);
        match current[k - 1] {
            Some(v) => before.push(MessageModel::SetAttribute { name: names[k - 1], value: Some(v) }),
            None => before,
        }
    }
}

pub open spec fn replay_spec(names: Seq<Seq<char>>, current: Seq<Option<Seq<char>>>) -> Seq<
    MessageModel,
> {
    replay_upto(names, current, names.len() as int)
}

pub open spec fn message_models(v: Seq<Message>) -> Seq<MessageModel> {
    v.map_values(|m: Message| m@)
}

impl Shared {
    pub fn new(attributes: Vec<String>) -> (r: Shared)
        ensures
            r.spec_attributes() == text_seq(attributes@),
    {
        Shared { attributes }
    }

    pub closed spec fn spec_attributes(&self) -> Seq<Seq<char>> {
        text_seq(self.attributes@)
    }

    /// The observed attribute names.
    pub fn attributes(&self) -> (r: &Vec<String>)
        ensures
            text_seq(r@) == self.spec_attributes(),
    {
        &self.attributes
    }

    /// The messages that replay the attributes the host element carries now;
    /// `current` holds the value of each observed attribute, in order.
    pub fn replay(&self, current: &Vec<Option<String>>) -> (r: Vec<Message>)
        requires
            current@.len() == self.spec_attributes().len(),
        ensures
            message_models(r@) == replay_spec(self.spec_attributes(), opt_text_seq(current@)),
    {
        let ghost names = self.spec_attributes();
        let ghost cur = opt_text_seq(current@);
        let mut r: Vec<Message> = Vec::new();
        let mut i: usize = 0;
        while i < self.attributes.len()
            invariant
                names == self.spec_attributes(),
                cur == opt_text_seq(current@),
                current@.len() == names.len(),
                i <= names.len(),
                message_models(r@) == replay_upto(names, cur, i as int),
            decreases names.len() - i,
        {
            let ghost before = r@;
            match &current[i] {
                Some(v) => {
                    let m = Message::SetAttribute {
                        name: self.attributes[i].clone(),
                        value: Some(v.clone()),
                    };
                    r.push(m);
                    assert(message_models(r@) =~= message_models(before).push(m@));
                },
                None => {},
            }
            i = i + 1;
        }
        r
    }
}

/// What the lifecycle bridge of an element instance holds.
pub ghost struct InstanceModel {
    pub attributes: Seq<Seq<char>>,
    pub lifecycle: Lifecycle,
    /// The messages sent and not yet received; `None` while no sender is installed
    pub channel: Option<Seq<MessageModel>>,
}

/// The bridge between the host element's lifecycle callbacks and the
/// component's message channel.
#[derive(Debug)]
pub struct RustComponentInstance {
    attributes: Vec<String>,
    lifecycle: Lifecycle,
    sender: Option<Vec<Message>>,
}

pub open spec fn channel_model(s: Option<Vec<Message>>) -> Option<Seq<MessageModel>> {
    match s {
        Some(q) => Some(message_models(q@)),
        None => None,
    }
}

/// Sending enqueues the message when a sender is installed, and drops it
/// otherwise.
pub open spec fn send_spec(inst: InstanceModel, m: MessageModel) -> InstanceModel {
    match inst.channel {
        Some(q) => InstanceModel { channel: Some(q.push(m)), ..inst },
        None => inst,
    }
}

impl View for RustComponentInstance {
    type V = InstanceModel;

    closed spec fn view(&self) -> InstanceModel {
        InstanceModel {
            attributes: text_seq(self.attributes@),
            lifecycle: self.lifecycle,
            channel: channel_model(self.sender),
        }
    }
}

fn same_value(a: &Option<String>, b: &Option<String>) -> (r: bool)
    ensures
        r == (opt_text(*a) == opt_text(*b)),
{
    match (a, b) {
        (Some(x), Some(y)) => same_text(x.as_str(), y.as_str()),
        (None, None) => true,
        _ => false,
    }
}

impl RustComponentInstance {
    /// A bridge for a new element, observing the given attributes.
    pub fn new(attributes: Vec<String>) -> (r: RustComponentInstance)
        ensures
            r@.attributes == text_seq(attributes@),
            r@.lifecycle == Lifecycle::Unconnected,
            r@.channel is None,
    {
        RustComponentInstance { attributes, lifecycle: Lifecycle::Unconnected, sender: None }
    }

    /// The element was attached to the page. Returns whether the component
    /// must be mounted now: only the first connection mounts it.
    pub fn connect(&mut self) -> (mount: bool)
        ensures
            mount == (old(self)@.lifecycle == Lifecycle::Unconnected),
            final(self)@ == (if mount {
                InstanceModel { lifecycle: Lifecycle::Connected, ..old(self)@ }
            } else {
                old(self)@
            }),
    {
        if self.lifecycle == Lifecycle::Unconnected {
            self.lifecycle = Lifecycle::Connected;
            true
        } else {
            false
        }
    }

    /// The context for the mounted component.
    pub fn shared(&self) -> (r: Shared)
        ensures
            r.spec_attributes() == self@.attributes,
    {
        let mut names: Vec<String> = Vec::new();
        let mut i: usize = 0;
        while i < self.attributes.len()
            invariant
                i <= self.attributes@.len(),
                names@.len() == i,
                forall|k: int| 0 <= k < i ==> #[trigger] names@[k]@ == self.attributes@[k]@,
            decreases self.attributes@.len() - i,
        {
            names.push(self.attributes[i].clone());
            i = i + 1;
        }
        assert(text_seq(names@) =~= text_seq(self.attributes@));
        Shared::new(names)
    }

    /// The mounted component is ready to receive: the sender is installed, and
    /// the attributes that the host element carries now are replayed first.
    /// Only a connected instance without a sender installs one.
    pub fn install_sender(&mut self, current: &Vec<Option<String>>)
        requires
            current@.len() == old(self)@.attributes.len(),
        ensures
            final(self)@ == (if old(self)@.lifecycle == Lifecycle::Connected
                && old(self)@.channel is None {
                InstanceModel {
                    channel: Some(replay_spec(old(self)@.attributes, opt_text_seq(current@))),
                    ..old(self)@
                }
            } else {
                old(self)@
            }),
    {
        if self.lifecycle == Lifecycle::Connected && self.sender.is_none() {
            let shared = self.shared();
            let replay = shared.replay(current);
            self.sender = Some(replay);
        }
    }

    fn send(&mut self, message: Message)
        ensures
            final(self)@ == send_spec(old(self)@, message@),
    {
        let ghost m = message@;
        match &mut self.sender {
            Some(q) => {
                let ghost before = q@;
                q.push(message);
                assert(message_models(q@) =~= message_models(before).push(m));
            },
            None => {},
        }
    }

    /// The host reports an attribute change; nothing is sent when the value
    /// did not change.
    pub fn attribute_changed(
        &mut self,
        name: String,
        old_value: Option<String>,
        new_value: Option<String>,
    )
        ensures
            final(self)@ == (if opt_text(old_value) == opt_text(new_value) {
                old(self)@
            } else {
                send_spec(
                    old(self)@,
                    MessageModel::SetAttribute { name: name@, value: opt_text(new_value) },
                )
            }),
    {
        if !same_value(&old_value, &new_value) {
            self.send(Message::SetAttribute { name, value: new_value });
        }
    }

    /// The host writes a property.
    pub fn set_property(&mut self, name: String, value: ExternalValue)
        ensures
            final(self)@ == send_spec(
                old(self)@,
                MessageModel::SetProperty { name: name@, value: value@ },
            ),
    {
        self.send(Message::SetProperty { name, value });
    }

    /// The host reads a property: the request goes out under the ticket
    /// `reply`. Returns whether it was sent; when it was not, the read
    /// resolves to undefined at once.
    pub fn get_property(&mut self, name: String, reply: u64) -> (sent: bool)
        ensures
            sent == (old(self)@.channel is Some),
            final(self)@ == send_spec(old(self)@, MessageModel::Get { name: name@, reply }),
    {
        let sent = self.sender.is_some();
        self.send(Message::Get { name, reply });
        sent
    }

    /// The element was detached: the sender is dropped, and later messages
    /// are dropped with it.
    pub fn disconnect(&mut self)
        ensures
            final(self)@ == (InstanceModel {
                lifecycle: Lifecycle::Disconnected,
                channel: None,
                ..old(self)@
            }),
    {
        self.lifecycle = Lifecycle::Disconnected;
        self.sender = None;
    }

    /// The next message for the component, in the order of sending.
    pub fn receive(&mut self) -> (r: Option<Message>)
        ensures
            (final(self)@, opt_message(r)) == receive_spec(old(self)@),
    {
        match &mut self.sender {
            Some(q) => {
                if q.len() > 0 {
                    let ghost before = q@;
                    let m = q.remove(0);
                    assert(message_models(q@) =~= message_models(before).drop_first());
                    Some(m)
                } else {
                    None
                }
            },
            None => None,
        }
    }
}

pub open spec fn opt_message(m: Option<Message>) -> Option<MessageModel> {
    match m {
        Some(x) => Some(x@),
        None => None,
    }
}

/// Receiving takes the oldest pending message, if any.
pub open spec fn receive_spec(inst: InstanceModel) -> (InstanceModel, Option<MessageModel>) {
    match inst.channel {
        Some(q) => if q.len() > 0 {
            (InstanceModel { channel: Some(q.drop_first()), ..inst }, Some(q[0]))
        } else {
            (inst, None)
        },
        None => (inst, None),
    }
}

pub open spec fn reply_models(v: Seq<Reply>) -> Seq<(u64, Value)> {
    v.map_values(|r: Reply| (r.reply, r.value@))
}

/// Draining handles every pending message in order and leaves the channel
/// empty; without a sender nothing happens.
pub open spec fn drained(
    d: DescriptorModel,
    inst: InstanceModel,
    st: StateModel,
    inst2: InstanceModel,
    st2: StateModel,
    replies: Seq<(u64, Value)>,
) -> bool {
    match inst.channel {
        Some(q) => {
            &&& st2 == run_state(d, st, q)
            &&& replies == run_replies(d, st, q)
            &&& inst2 == InstanceModel { channel: Some(Seq::empty()), ..inst }
        },
        None => st2 == st && replies.len() == 0 && inst2 == inst,
    }
}

/// The value that answers the read under `ticket`: the first reply to it, or
/// undefined when none came (no sender, or the channel was torn down).
pub fn answer_for(replies: &Vec<Reply>, ticket: u64) -> (r: ExternalValue)
    ensures
        match first_reply(reply_models(replies@), ticket) {
            Some(i) => r@ == reply_models(replies@)[i].1,
            None => r@ == Value::Undefined,
        },
{
    let ghost rs = reply_models(replies@);
    let mut i: usize = 0;
    while i < replies.len()
        invariant
            rs == reply_models(replies@),
            i <= replies@.len(),
            forall|k: int| 0 <= k < i ==> (#[trigger] rs[k]).0 != ticket,
        decreases replies@.len() - i,
    {
        if replies[i].reply == ticket {
            proof {
                let j = choose|j: int| is_first_reply(rs, ticket, j);
                assert(is_first_reply(rs, ticket, i as int));
                if j < i {
                    assert(rs[j].0 != ticket);
                } else if i < j {
                    assert(rs[i as int].0 != ticket);
                }
            }
            return replies[i].value.duplicate();
        }
        i = i + 1;
    }
    ExternalValue::Undefined
}

pub open spec fn is_first_reply(rs: Seq<(u64, Value)>, ticket: u64, i: int) -> bool {
    &&& 0 <= i < rs.len()
    &&& rs[i].0 == ticket
    &&& forall|k: int| 0 <= k < i ==> (#[trigger] rs[k]).0 != ticket
}

/// The position of the first reply under `ticket`.
pub open spec fn first_reply(rs: Seq<(u64, Value)>, ticket: u64) -> Option<int> {
    if exists|i: int| is_first_reply(rs, ticket, i) {
        Some(choose|i: int| is_first_reply(rs, ticket, i))
    } else {
        None
    }
}

/// The consumer of a mounted component: handle every pending message in the
/// order of sending, and return the replies to the reads among them.
pub fn drain(
    instance: &mut RustComponentInstance,
    desc: &Descriptor,
    state: &mut ComponentState,
) -> (replies: Vec<Reply>)
    requires
        desc.wf(),
        fits(desc@, old(state)@),
    ensures
        fits(desc@, final(state)@),
        drained(desc@, old(instance)@, old(state)@, final(instance)@, final(state)@, reply_models(replies@)),
{
    let ghost q0 = old(instance)@.channel;
    let ghost st0 = old(state)@;
    let ghost inst0 = old(instance)@;
    let mut replies: Vec<Reply> = Vec::new();
    let ghost mut done: int = 0;
    proof {
        if let Some(q) = q0 {
            assert(q.skip(0) =~= q);
            assert(q.take(0) =~= Seq::<MessageModel>::empty());
        }
        assert(reply_models(replies@) =~= Seq::<(u64, Value)>::empty());
    }
    loop
        invariant
            desc.wf(),
            fits(desc@, state@),
            q0 == inst0.channel,
            inst0 == old(instance)@,
            st0 == old(state)@,
            match q0 {
                Some(q) => {
                    &&& 0 <= done <= q.len()
                    &&& instance@ == InstanceModel { channel: Some(q.skip(done)), ..inst0 }
                    &&& state@ == run_state(desc@, st0, q.take(done))
                    &&& reply_models(replies@) == run_replies(
                        desc@,
                        st0,
                        q.take(done),
                    )
                },
                None => state@ == st0 && replies@.len() == 0 && instance@ == inst0,
            },
        decreases
            match q0 {
                Some(q) => q.len() - done,
                None => 0,
            },
    {
        let ghost st_before = state@;
        let ghost rs_before = replies@;
        match instance.receive() {
            Some(m) => {
                let ghost mm = m@;
                let ghost q = q0->Some_0;
                proof {
                    assert(q.skip(done)[0] == q[done]);
                    assert(q.skip(done).drop_first() =~= q.skip(done + 1));
                    assert(q.take(done + 1).drop_last() =~= q.take(done));
                    assert(q.take(done + 1).last() == q[done]);
                }
                let r = state.handle_message(desc, m);
                match r {
                    Some(x) => {
                        replies.push(x);
                    },
                    None => {},
                }
                proof {
                    assert(reply_models(replies@) =~= run_replies(
                        desc@,
                        st0,
                        q.take(done + 1),
                    ));
                    done = done + 1;
                }
            },
            None => {
                proof {
                    if let Some(q) = q0 {
                        assert(q.take(done) =~= q);
                        assert(q.skip(done) =~= Seq::<MessageModel>::empty());
                    }
                }
                return replies;
            },
        }
    }
}

} // verus!
