use vstd::prelude::*;

use crate::bridge::{replay_spec, replay_upto, send_spec, InstanceModel};
use crate::component::{
    attribute_value, field_value, fits, get_property_spec, lemma_step_fits, run_replies,
    run_state, set_attribute_spec, step_reply, step_state, with_field, StateModel,
};
use crate::descriptor::{
    attribute_fields, attribute_names, descriptor_wf, lemma_index_of, property_names,
    unique_names, DescriptorModel,
};
use crate::message::MessageModel;
use crate::value::{has_kind, Value};

verus! {

/// Handling messages keeps one value per field.
pub proof fn lemma_run_fits(d: DescriptorModel, st: StateModel, ms: Seq<MessageModel>)
    requires
        fits(d, st),
    ensures
        fits(d, run_state(d, st, ms)),
    decreases ms.len(),
{
    if ms.len() > 0 {
        lemma_run_fits(d, st, ms.drop_last());
        lemma_step_fits(d, run_state(d, st, ms.drop_last()), ms.last());
    }
}

/// Changing one field sets that field and keeps every other one.
pub proof fn lemma_with_field(st: StateModel, a: Seq<char>, v: Value, b: Seq<char>)
    requires
        unique_names(st.fields),
        st.fields.len() == st.values.len(),
        st.fields.contains(a),
    ensures
        with_field(st, a, v).fields == st.fields,
        field_value(with_field(st, a, v), a) == v,
        b != a ==> field_value(with_field(st, a, v), b) == field_value(st, b),
{
    let k = choose|k: int| 0 <= k < st.fields.len() && st.fields[k] == a;
    lemma_index_of(st.fields, a, k);
    if b != a && st.fields.contains(b) {
        let m = choose|m: int| 0 <= m < st.fields.len() && st.fields[m] == b;
        lemma_index_of(st.fields, b, m);
    }
}

/// An attribute change under a name that the descriptor does not observe
/// leaves the state as it is.
pub proof fn lemma_unobserved_attribute_ignored(
    d: DescriptorModel,
    st: StateModel,
    name: Seq<char>,
    text: Option<Seq<char>>,
)
    requires
        forall|i: int| 0 <= i < d.attributes.len() ==> d.attributes[i].name != name,
    ensures
        set_attribute_spec(d, st, name, text) == st,
{
    assert(!exists|i: int|
        0 <= i < attribute_names(d).len() && attribute_names(d)[i] == name);
}

/// A read under a name that is no property gives undefined and changes
/// nothing.
pub proof fn lemma_unknown_property_reads_undefined(
    d: DescriptorModel,
    st: StateModel,
    name: Seq<char>,
    reply: u64,
)
    requires
        forall|j: int| 0 <= j < d.properties.len() ==> d.properties[j].name != name,
    ensures
        step_state(d, st, MessageModel::Get { name, reply }) == st,
        step_reply(d, st, MessageModel::Get { name, reply }) == Some((reply, Value::Undefined)),
{
    assert(!exists|j: int|
        0 <= j < property_names(d).len() && property_names(d)[j] == name);
}

/// Without an installed sender (before mounting, or after disconnecting),
/// whatever the host sends is dropped and the instance stays as it is.
pub proof fn lemma_no_sender_drops(inst: InstanceModel, m: MessageModel)
    requires
        inst.channel is None,
    ensures
        send_spec(inst, m) == inst,
{
}

/// With a sender installed, two messages sent one after the other are queued
/// in that order, after those already pending, each once.
pub proof fn lemma_sends_keep_order(inst: InstanceModel, m1: MessageModel, m2: MessageModel)
    requires
        inst.channel is Some,
    ensures
        send_spec(send_spec(inst, m1), m2).channel == Some(inst.channel->Some_0.push(m1).push(m2)),
{
}

/// Setting attribute `j` from text changes its field alone.
proof fn lemma_set_attribute_field(
    d: DescriptorModel,
    st: StateModel,
    j: int,
    text: Option<Seq<char>>,
    b: Seq<char>,
)
    requires
        descriptor_wf(d),
        fits(d, st),
        0 <= j < d.attributes.len(),
    ensures
        field_value(set_attribute_spec(d, st, d.attributes[j].name, text), d.attributes[j].ident)
            == attribute_value(d.attributes[j], text),
        b != d.attributes[j].ident ==> field_value(
            set_attribute_spec(d, st, d.attributes[j].name, text),
            b,
        ) == field_value(st, b),
{
    lemma_index_of(attribute_names(d), d.attributes[j].name, j);
    lemma_with_field(st, d.attributes[j].ident, attribute_value(d.attributes[j], text), b);
}

proof fn lemma_replay_prefix(
    d: DescriptorModel,
    st: StateModel,
    current: Seq<Option<Seq<char>>>,
    i: int,
    text: Seq<char>,
    k: int,
)
    requires
        descriptor_wf(d),
        fits(d, st),
        current.len() == d.attributes.len(),
        0 <= i < k <= current.len(),
        current[i] == Some(text),
    ensures
        field_value(run_state(d, st, replay_upto(attribute_names(d), current, k)), d.attributes[i].ident)
            == attribute_value(d.attributes[i], Some(text)),
    decreases k,
{
    let names = attribute_names(d);
    let prev = replay_upto(names, current, k - 1);
    lemma_run_fits(d, st, prev);
    let before = run_state(d, st, prev);
    match current[k - 1] {
        Some(v) => {
            let m = MessageModel::SetAttribute { name: names[k - 1], value: Some(v) };
            assert(prev.push(m).drop_last() =~= prev);
            lemma_set_attribute_field(d, before, k - 1, Some(v), d.attributes[i].ident);
            if k - 1 != i {
                assert(attribute_fields(d)[k - 1] != attribute_fields(d)[i]);
                lemma_replay_prefix(d, st, current, i, text, k - 1);
            }
        },
        None => {
            lemma_replay_prefix(d, st, current, i, text, k - 1);
        },
    }
}

/// Replay: when the host element carries an observed attribute before the
/// component mounts, the mounted component's field holds the value taken from
/// that text (parsed, or the fallback when it does not parse), whether or not
/// an attribute change was ever reported.
pub proof fn lemma_replay_sets_attribute(
    d: DescriptorModel,
    st: StateModel,
    current: Seq<Option<Seq<char>>>,
    i: int,
    text: Seq<char>,
)
    requires
        descriptor_wf(d),
        fits(d, st),
        current.len() == d.attributes.len(),
        0 <= i < current.len(),
        current[i] == Some(text),
    ensures
        field_value(
            run_state(d, st, replay_spec(attribute_names(d), current)),
            d.attributes[i].ident,
        ) == attribute_value(d.attributes[i], Some(text)),
{
    lemma_replay_prefix(d, st, current, i, text, current.len() as int);
}

/// Messages are handled in the order they were sent: for a field that is both
/// an attribute and a property, a property read between two changes of the
/// attribute sees the first change and not the second.
pub proof fn lemma_read_sees_earlier_change(
    d: DescriptorModel,
    st: StateModel,
    i: int,
    j: int,
    first: Seq<char>,
    second: Seq<char>,
    reply: u64,
)
    requires
        descriptor_wf(d),
        fits(d, st),
        0 <= i < d.attributes.len(),
        0 <= j < d.properties.len(),
        d.attributes[i].ident == d.properties[j].ident,
    ensures
        ({
            let a = d.attributes[i].name;
            let p = d.properties[j].name;
            run_replies(
                d,
                st,
                seq![
                    MessageModel::SetAttribute { name: a, value: Some(first) },
                    MessageModel::Get { name: p, reply },
                    MessageModel::SetAttribute { name: a, value: Some(second) },
                ],
            ) == seq![(reply, attribute_value(d.attributes[i], Some(first)))]
        }),
{
    let a = d.attributes[i].name;
    let p = d.properties[j].name;
    let m1 = MessageModel::SetAttribute { name: a, value: Some(first) };
    let m2 = MessageModel::Get { name: p, reply };
    let m3 = MessageModel::SetAttribute { name: a, value: Some(second) };
    let ms = seq![m1, m2, m3];
    assert(ms.drop_last() =~= seq![m1, m2]);
    assert(seq![m1, m2].drop_last() =~= seq![m1]);
    assert(seq![m1].drop_last() =~= Seq::<MessageModel>::empty());
    lemma_index_of(property_names(d), p, j);
    lemma_set_attribute_field(d, st, i, Some(first), d.attributes[i].ident);
    let st1 = set_attribute_spec(d, st, a, Some(first));
    assert(run_state(d, st, Seq::<MessageModel>::empty()) == st);
    assert(run_replies(d, st, Seq::<MessageModel>::empty()) == Seq::<(u64, Value)>::empty());
    assert(run_state(d, st, seq![m1]) == st1);
    assert(run_state(d, st, seq![m1, m2]) == st1);
    assert(run_replies(d, st, seq![m1]) =~= Seq::<(u64, Value)>::empty());
    assert(get_property_spec(d, st1, p) == attribute_value(d.attributes[i], Some(first)));
    assert(run_replies(d, st, seq![m1, m2]) =~= seq![(reply, attribute_value(d.attributes[i], Some(first)))]);
}

/// Round trip: a value of a writable property's kind, written and then read,
/// comes back unchanged.
pub proof fn lemma_property_round_trip(
    d: DescriptorModel,
    st: StateModel,
    i: int,
    x: Value,
    reply: u64,
)
    requires
        descriptor_wf(d),
        fits(d, st),
        0 <= i < d.properties.len(),
        !d.properties[i].readonly,
        has_kind(x, d.properties[i].kind),
    ensures
        ({
            let p = d.properties[i].name;
            run_replies(
                d,
                st,
                seq![
                    MessageModel::SetProperty { name: p, value: x },
                    MessageModel::Get { name: p, reply },
                ],
            ) == seq![(reply, x)]
        }),
{
    let p = d.properties[i].name;
    let m1 = MessageModel::SetProperty { name: p, value: x };
    let m2 = MessageModel::Get { name: p, reply };
    assert(seq![m1, m2].drop_last() =~= seq![m1]);
    assert(seq![m1].drop_last() =~= Seq::<MessageModel>::empty());
    lemma_index_of(property_names(d), p, i);
    lemma_with_field(st, d.properties[i].ident, x, d.properties[i].ident);
    assert(run_state(d, st, Seq::<MessageModel>::empty()) == st);
    assert(run_replies(d, st, Seq::<MessageModel>::empty()) == Seq::<(u64, Value)>::empty());
    assert(run_replies(d, st, seq![m1]) =~= Seq::<(u64, Value)>::empty());
    assert(run_replies(d, st, seq![m1, m2]) =~= seq![(reply, x)]);
}

/// A write to a readonly property changes nothing, so a later read returns
/// what it returned before.
pub proof fn lemma_readonly_property_unchanged(
    d: DescriptorModel,
    st: StateModel,
    i: int,
    v: Value,
)
    requires
        descriptor_wf(d),
        0 <= i < d.properties.len(),
        d.properties[i].readonly,
    ensures
        step_state(d, st, MessageModel::SetProperty { name: d.properties[i].name, value: v }) == st,
        get_property_spec(
            d,
            step_state(d, st, MessageModel::SetProperty { name: d.properties[i].name, value: v }),
            d.properties[i].name,
        ) == get_property_spec(d, st, d.properties[i].name),
{
    lemma_index_of(property_names(d), d.properties[i].name, i);
}

} // verus!
