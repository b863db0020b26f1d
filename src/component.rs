use vstd::prelude::*;

use crate::bridge::text_seq;
use crate::descriptor::{
    attribute_fields, attribute_names, descriptor_wf, index_of, lemma_index_of, opt_index,
    property_fields, property_names, unique_names, AttributeModel, Descriptor, DescriptorModel,
};
use crate::tag::same_text;
use crate::message::{reply_model, Message, MessageModel, Reply};
use crate::value::{has_kind, parse_spec, parse_value, ExternalValue, Value};

verus! {

/// The values that a mounted component holds: one per field, under the
/// field's identifier. An attribute and a property bound to the same field
/// share its value.
pub ghost struct StateModel {
    pub fields: Seq<Seq<char>>,
    pub values: Seq<Value>,
}

/// The state of a mounted component; only the consumer of its messages
/// changes it.
#[derive(Debug)]
pub struct ComponentState {
    fields: Vec<String>,
    values: Vec<ExternalValue>,
}

impl View for ComponentState {
    type V = StateModel;

    closed spec fn view(&self) -> StateModel {
        StateModel {
            fields: text_seq(self.fields@),
            values: self.values@.map_values(|v: ExternalValue| v@),
        }
    }
}

/// The state holds exactly one value for each field that an attribute or a
/// property of `d` is bound to.
pub open spec fn fits(d: DescriptorModel, st: StateModel) -> bool {
    &&& st.fields.len() == st.values.len()
    &&& unique_names(st.fields)
    &&& forall|i: int| 0 <= i < d.attributes.len() ==> st.fields.contains(#[trigger] d.attributes[i].ident)
    &&& forall|i: int| 0 <= i < d.properties.len() ==> st.fields.contains(#[trigger] d.properties[i].ident)
}

/// The value of a field; undefined for a field that the state does not hold.
pub open spec fn field_value(st: StateModel, field: Seq<char>) -> Value {
    match index_of(st.fields, field) {
        Some(k) => st.values[k],
        None => Value::Undefined,
    }
}

/// The state with one field changed.
pub open spec fn with_field(st: StateModel, field: Seq<char>, v: Value) -> StateModel {
    match index_of(st.fields, field) {
        Some(k) => StateModel { values: st.values.update(k, v), ..st },
        None => st,
    }
}

/// The value a field starts from: the initial value of its attribute, or, for
/// a field that is a property only, of its property.
pub open spec fn initial_value(d: DescriptorModel, field: Seq<char>) -> Value {
    match index_of(attribute_fields(d), field) {
        Some(i) => d.attributes[i].initial,
        None => match index_of(property_fields(d), field) {
            Some(j) => d.properties[j].initial,
            None => Value::Undefined,
        },
    }
}

/// A freshly mounted state: every field holds its initial value.
pub open spec fn is_initial(d: DescriptorModel, st: StateModel) -> bool {
    &&& fits(d, st)
    &&& forall|k: int| 0 <= k < st.values.len() ==> #[trigger] st.values[k] == initial_value(d, st.fields[k])
}

/// The value an attribute takes from its text: the parsed value, or, when the
/// text is absent or does not parse, undefined for an optional attribute and
/// the initial value for a required one.
pub open spec fn attribute_value(a: AttributeModel, text: Option<Seq<char>>) -> Value {
    let parsed = match text {
        Some(s) => parse_spec(a.kind, s),
        None => None,
    };
    match parsed {
        Some(v) => v,
        None => if a.optional {
            Value::Undefined
        } else {
            a.initial
        },
    }
}

pub open spec fn set_attribute_spec(
    d: DescriptorModel,
    st: StateModel,
    name: Seq<char>,
    text: Option<Seq<char>>,
) -> StateModel {
    match index_of(attribute_names(d), name) {
        Some(i) => with_field(st, d.attributes[i].ident, attribute_value(d.attributes[i], text)),
        None => st,
    }
}

/// A property takes a value only when it is writable and the value is of its
/// kind; otherwise its field keeps its value.
pub open spec fn set_property_spec(
    d: DescriptorModel,
    st: StateModel,
    name: Seq<char>,
    v: Value,
) -> StateModel {
    match index_of(property_names(d), name) {
        Some(i) => if !d.properties[i].readonly && has_kind(v, d.properties[i].kind) {
            with_field(st, d.properties[i].ident, v)
        } else {
            st
        },
        None => st,
    }
}

/// The value read under `name`: the field of the property of that name, or
/// undefined when no property has that name.
pub open spec fn get_property_spec(d: DescriptorModel, st: StateModel, name: Seq<char>) -> Value {
    match index_of(property_names(d), name) {
        Some(i) => field_value(st, d.properties[i].ident),
        None => Value::Undefined,
    }
}

pub open spec fn step_state(d: DescriptorModel, st: StateModel, m: MessageModel) -> StateModel {
    match m {
        MessageModel::SetAttribute { name, value } => set_attribute_spec(d, st, name, value),
        MessageModel::Get { .. } => st,
        MessageModel::SetProperty { name, value } => set_property_spec(d, st, name, value),
    }
}

pub open spec fn step_reply(d: DescriptorModel, st: StateModel, m: MessageModel) -> Option<
    (u64, Value),
> {
    match m {
        MessageModel::Get { name, reply } => Some((reply, get_property_spec(d, st, name))),
        _ => None,
    }
}

/// The state after handling `ms` in order.
pub open spec fn run_state(d: DescriptorModel, st: StateModel, ms: Seq<MessageModel>) -> StateModel
    decreases ms.len(),
{
    if ms.len() == 0 {
        st
    } else {
        step_state(d, run_state(d, st, ms.drop_last()), ms.last())
    }
}

/// The replies produced while handling `ms` in order.
pub open spec fn run_replies(d: DescriptorModel, st: StateModel, ms: Seq<MessageModel>) -> Seq<
    (u64, Value),
>
    decreases ms.len(),
{
    if ms.len() == 0 {
        Seq::empty()
    } else {
        let before = run_replies(d, st, ms.drop_last());
        match step_reply(d, run_state(d, st, ms.drop_last()), ms.last()) {
            Some(r) => before.push(r),
            None => before,
        }
    }
}

impl ComponentState {
    /// The position of a field.
    fn position(&self, field: &str) -> (r: Option<usize>)
        requires
            unique_names(self@.fields),
        ensures
            opt_index(r) == index_of(self@.fields, field@),
    {
        let mut i: usize = 0;
        while i < self.fields.len()
            invariant
                i <= self.fields@.len(),
                unique_names(self@.fields),
                forall|k: int| 0 <= k < i ==> self@.fields[k] != field@,
            decreases self.fields@.len() - i,
        {
            if same_text(self.fields[i].as_str(), field) {
                proof {
                    lemma_index_of(self@.fields, field@, i as int);
                }
                return Some(i);
            }
            i = i + 1;
        }
        None
    }

    /// Add a field that the state does not hold yet.
    fn add_field(&mut self, field: &String, v: ExternalValue)
        requires
            old(self)@.fields.len() == old(self)@.values.len(),
            unique_names(old(self)@.fields),
            !old(self)@.fields.contains(field@),
        ensures
            final(self)@.fields == old(self)@.fields.push(field@),
            final(self)@.values == old(self)@.values.push(v@),
            unique_names(final(self)@.fields),
    {
        let ghost v0 = v@;
        let ghost before = self@;
        self.fields.push(field.clone());
        self.values.push(v);
        assert(self@.fields =~= before.fields.push(field@));
        assert(self@.values =~= before.values.push(v0));
        assert forall|i: int, j: int|
            0 <= i < self@.fields.len() && 0 <= j < self@.fields.len() && i != j implies self@.fields[i]
            != self@.fields[j] by {
            if i == before.fields.len() as int {
                assert(before.fields.contains(self@.fields[j]) || self@.fields[j] != field@);
            } else if j == before.fields.len() as int {
                assert(before.fields.contains(self@.fields[i]) || self@.fields[i] != field@);
            }
        }
    }

    /// Change the value of a field.
    fn set_field(&mut self, field: &str, v: ExternalValue)
        requires
            old(self)@.fields.len() == old(self)@.values.len(),
            unique_names(old(self)@.fields),
        ensures
            final(self)@ == with_field(old(self)@, field@, v@),
    {
        match self.position(field) {
            Some(k) => {
                let ghost v0 = v@;
                self.values.set(k, v);
                assert(self@.values =~= old(self)@.values.update(k as int, v0));
            },
            None => {},
        }
    }

    /// The state of a freshly mounted component.
    pub fn new(desc: &Descriptor) -> (r: ComponentState)
        requires
            desc.wf(),
        ensures
            is_initial(desc@, r@),
    {
        let ghost d = desc@;
        let mut st = ComponentState { fields: Vec::new(), values: Vec::new() };
        assert(st@.fields =~= Seq::<Seq<char>>::empty());
        let mut i: usize = 0;
        while i < desc.attribute_count()
            invariant
                d == desc@,
                descriptor_wf(d),
                i <= d.attributes.len(),
                st@.fields.len() == st@.values.len(),
                st@.fields.len() == i,
                unique_names(st@.fields),
                forall|k: int| 0 <= k < i ==> #[trigger] st@.fields[k] == d.attributes[k].ident,
                forall|k: int| 0 <= k < st@.values.len() ==> #[trigger] st@.values[k] == initial_value(d, st@.fields[k]),
            decreases d.attributes.len() - i,
        {
            let a = desc.attribute(i);
            proof {
                lemma_index_of(attribute_fields(d), a.ident@, i as int);
                assert(!st@.fields.contains(a.ident@)) by {
                    if st@.fields.contains(a.ident@) {
                        let k = choose|k: int| 0 <= k < st@.fields.len() && st@.fields[k] == a.ident@;
                        assert(attribute_fields(d)[k] == attribute_fields(d)[i as int]);
                    }
                }
            }
            st.add_field(&a.ident, a.initial.duplicate());
            i = i + 1;
        }
        proof {
            assert forall|k: int| 0 <= k < d.attributes.len() implies st@.fields.contains(
                #[trigger] d.attributes[k].ident,
            ) by {
                assert(st@.fields[k] == d.attributes[k].ident);
            }
        }
        let mut j: usize = 0;
        while j < desc.property_count()
            invariant
                d == desc@,
                descriptor_wf(d),
                j <= d.properties.len(),
                st@.fields.len() == st@.values.len(),
                unique_names(st@.fields),
                forall|k: int| 0 <= k < d.attributes.len() ==> st@.fields.contains(#[trigger] d.attributes[k].ident),
                forall|k: int| 0 <= k < j ==> st@.fields.contains(#[trigger] d.properties[k].ident),
                forall|k: int| 0 <= k < st@.values.len() ==> #[trigger] st@.values[k] == initial_value(d, st@.fields[k]),
            decreases d.properties.len() - j,
        {
            let p = desc.property(j);
            if st.position(p.ident.as_str()).is_none() {
                proof {
                    lemma_index_of(property_fields(d), p.ident@, j as int);
                    assert(index_of(attribute_fields(d), p.ident@) is None) by {
                        if exists|k: int| 0 <= k < attribute_fields(d).len() && attribute_fields(d)[k] == p.ident@ {
                            let k = choose|k: int| 0 <= k < attribute_fields(d).len() && attribute_fields(d)[k] == p.ident@;
                            assert(st@.fields.contains(d.attributes[k].ident));
                        }
                    }
                    assert(!st@.fields.contains(p.ident@)) by {
                        if st@.fields.contains(p.ident@) {
                            let k = choose|k: int| 0 <= k < st@.fields.len() && st@.fields[k] == p.ident@;
                            assert(index_of(st@.fields, p.ident@) is Some);
                        }
                    }
                }
                let ghost before = st@;
                st.add_field(&p.ident, p.initial.duplicate());
                proof {
                    assert(st@.fields[before.fields.len() as int] == p.ident@);
                    assert forall|k: int| 0 <= k < d.attributes.len() implies st@.fields.contains(
                        #[trigger] d.attributes[k].ident,
                    ) by {
                        let m = choose|m: int| 0 <= m < before.fields.len() && before.fields[m] == d.attributes[k].ident;
                        assert(st@.fields[m] == d.attributes[k].ident);
                    }
                    assert forall|k: int| 0 <= k < j + 1 implies st@.fields.contains(
                        #[trigger] d.properties[k].ident,
                    ) by {
                        if k < j {
                            let m = choose|m: int| 0 <= m < before.fields.len() && before.fields[m] == d.properties[k].ident;
                            assert(st@.fields[m] == d.properties[k].ident);
                        }
                    }
                }
            } else {
                proof {
                    let m = choose|m: int| 0 <= m < st@.fields.len() && st@.fields[m] == p.ident@;
                    assert(st@.fields.contains(p.ident@));
                }
            }
            j = j + 1;
        }
        st
    }

    /// Apply an attribute change.
    pub fn set_attribute(&mut self, desc: &Descriptor, name: &str, value: Option<String>)
        requires
            desc.wf(),
            fits(desc@, old(self)@),
        ensures
            final(self)@ == set_attribute_spec(desc@, old(self)@, name@, crate::message::opt_text(value)),
    {
        match desc.attribute_index(name) {
            Some(i) => {
                let spec = desc.attribute(i);
                let parsed = match &value {
                    Some(text) => parse_value(spec.kind, text.as_str()),
                    None => None,
                };
                let v = match parsed {
                    Some(v) => v,
                    None => if spec.optional {
                        ExternalValue::Undefined
                    } else {
                        spec.initial.duplicate()
                    },
                };
                self.set_field(spec.ident.as_str(), v);
            },
            None => {},
        }
    }

    /// Apply a property write.
    pub fn set_property(&mut self, desc: &Descriptor, name: &str, value: ExternalValue)
        requires
            desc.wf(),
            fits(desc@, old(self)@),
        ensures
            final(self)@ == set_property_spec(desc@, old(self)@, name@, value@),
    {
        match desc.property_index(name) {
            Some(i) => {
                let spec = desc.property(i);
                if !spec.readonly && value.is_kind(spec.kind) {
                    self.set_field(spec.ident.as_str(), value);
                }
            },
            None => {},
        }
    }

    /// Read a property; undefined when no property has that name.
    pub fn get_property(&self, desc: &Descriptor, name: &str) -> (r: ExternalValue)
        requires
            desc.wf(),
            fits(desc@, self@),
        ensures
            r@ == get_property_spec(desc@, self@, name@),
    {
        match desc.property_index(name) {
            Some(i) => match self.position(desc.property(i).ident.as_str()) {
                Some(k) => self.values[k].duplicate(),
                None => ExternalValue::Undefined,
            },
            None => ExternalValue::Undefined,
        }
    }

    /// The value of a field, by its identifier; undefined for an unknown field.
    pub fn field(&self, field: &str) -> (r: ExternalValue)
        requires
            unique_names(self@.fields),
            self@.fields.len() == self@.values.len(),
        ensures
            r@ == field_value(self@, field@),
    {
        match self.position(field) {
            Some(k) => self.values[k].duplicate(),
            None => ExternalValue::Undefined,
        }
    }

    /// Handle one message; a read is answered under its ticket.
    pub fn handle_message(&mut self, desc: &Descriptor, message: Message) -> (r: Option<Reply>)
        requires
            desc.wf(),
            fits(desc@, old(self)@),
        ensures
            final(self)@ == step_state(desc@, old(self)@, message@),
            reply_model(r) == step_reply(desc@, old(self)@, message@),
            fits(desc@, final(self)@),
    {
        proof {
            lemma_step_fits(desc@, self@, message@);
        }
        match message {
            Message::SetAttribute { name, value } => {
                self.set_attribute(desc, name.as_str(), value);
                None
            },
            Message::Get { name, reply } => {
                let value = self.get_property(desc, name.as_str());
                Some(Reply { reply, value })
            },
            Message::SetProperty { name, value } => {
                self.set_property(desc, name.as_str(), value);
                None
            },
        }
    }
}

/// Handling a message keeps one value per field.
pub proof fn lemma_step_fits(d: DescriptorModel, st: StateModel, m: MessageModel)
    requires
        fits(d, st),
    ensures
        fits(d, step_state(d, st, m)),
{
    let st2 = step_state(d, st, m);
    assert(st2.fields == st.fields);
}

} // verus!
