use vstd::prelude::*;

use crate::event::EventSpec;
use crate::naming::{
    has_prefix, kebab_of, lower_camel_of, starts_with, to_kebab_case, to_lower_camel_case, unraw,
    unraw_spec,
};
use crate::tag::same_text;
use crate::value::{ExternalValue, Value, ValueKind};

verus! {

/// An HTML attribute that the component observes.
#[derive(Debug)]
pub struct AttributeSpec {
    /// Identifier of the field in the component
    pub ident: String,
    /// Name of the attribute on the host element
    pub name: String,
    pub kind: ValueKind,
    /// An optional attribute becomes undefined when absent or unparsable
    pub optional: bool,
    /// The value of a required attribute when absent or unparsable
    pub initial: ExternalValue,
}

/// A DOM property that the component exposes.
#[derive(Debug)]
pub struct PropertySpec {
    /// Identifier of the field in the component
    pub ident: String,
    /// Name of the property in messages
    pub name: String,
    pub readonly: bool,
    pub kind: ValueKind,
    pub initial: ExternalValue,
}

pub ghost struct AttributeModel {
    pub ident: Seq<char>,
    pub name: Seq<char>,
    pub kind: ValueKind,
    pub optional: bool,
    pub initial: Value,
}

pub ghost struct PropertyModel {
    pub ident: Seq<char>,
    pub name: Seq<char>,
    pub readonly: bool,
    pub kind: ValueKind,
    pub initial: Value,
}

impl View for AttributeSpec {
    type V = AttributeModel;

    open spec fn view(&self) -> AttributeModel {
        AttributeModel {
            ident: self.ident@,
            name: self.name@,
            kind: self.kind,
            optional: self.optional,
            initial: self.initial@,
        }
    }
}

impl View for PropertySpec {
    type V = PropertyModel;

    open spec fn view(&self) -> PropertyModel {
        PropertyModel {
            ident: self.ident@,
            name: self.name@,
            readonly: self.readonly,
            kind: self.kind,
            initial: self.initial@,
        }
    }
}

/// The JavaScript type of a property of the given kind.
pub open spec fn js_type_of(k: ValueKind) -> Seq<char> {
    match k {
        ValueKind::Text => "string"@,
        ValueKind::Int => "number"@,
        ValueKind::Bool => "boolean"@,
    }
}

/// What the annotation of an attribute may set.
#[derive(Debug)]
pub struct AttributeReceiver {
    /// Name of the attribute on the host element
    pub name: Option<String>,
    /// Whether the attribute is optional
    pub option: Option<bool>,
}

/// What the annotation of a property may set.
#[derive(Debug)]
pub struct PropertyReceiver {
    /// Name of the property
    pub name: Option<String>,
    /// Whether the property is readonly
    pub readonly: Option<bool>,
}

/// The name derived from a field identifier: its kebab-case form, without
/// the raw marker.
pub open spec fn derived_name(ident: Seq<char>) -> Seq<char> {
    kebab_of(unraw_spec(ident))
}

pub open spec fn name_or_derived(name: Option<String>, ident: Seq<char>) -> Seq<char> {
    match name {
        Some(n) => n@,
        None => derived_name(ident),
    }
}

/// Without an explicit choice, an attribute is optional when its field type
/// is an `Option`.
pub open spec fn optional_or_typed(option: Option<bool>, ty: Seq<char>) -> bool {
    match option {
        Some(b) => b,
        None => has_prefix(ty, "Option <"@),
    }
}

fn name_or_derive(name: Option<String>, ident: &str) -> (r: String)
    ensures
        r@ == name_or_derived(name, ident@),
{
    match name {
        Some(n) => n,
        None => to_kebab_case(unraw(ident)),
    }
}

impl AttributeSpec {
    /// A required attribute whose name is derived from `ident`.
    pub fn new(ident: &str, kind: ValueKind, initial: ExternalValue) -> (r: AttributeSpec)
        ensures
            r.ident@ == ident@,
            r.name@ == derived_name(ident@),
            r.kind == kind,
            !r.optional,
            r.initial@ == initial@,
    {
        AttributeSpec {
            ident: ident.to_owned(),
            name: name_or_derive(None, ident),
            kind,
            optional: false,
            initial,
        }
    }

    /// An attribute as its annotation describes it; `ty` is the text of the
    /// field's type.
    pub fn parse(
        ident: &str,
        ty: &str,
        kind: ValueKind,
        initial: ExternalValue,
        receiver: AttributeReceiver,
    ) -> (r: AttributeSpec)
        ensures
            r.ident@ == ident@,
            r.name@ == name_or_derived(receiver.name, ident@),
            r.kind == kind,
            r.optional == optional_or_typed(receiver.option, ty@),
            r.initial@ == initial@,
    {
        let optional = match receiver.option {
            Some(b) => b,
            None => starts_with(ty, "Option <"),
        };
        AttributeSpec {
            ident: ident.to_owned(),
            name: name_or_derive(receiver.name, ident),
            kind,
            optional,
            initial,
        }
    }
}

impl PropertySpec {
    /// A writable property whose name is derived from `ident`.
    pub fn new(ident: &str, kind: ValueKind, initial: ExternalValue) -> (r: PropertySpec)
        ensures
            r.ident@ == ident@,
            r.name@ == derived_name(ident@),
            r.kind == kind,
            !r.readonly,
            r.initial@ == initial@,
    {
        PropertySpec {
            ident: ident.to_owned(),
            name: name_or_derive(None, ident),
            readonly: false,
            kind,
            initial,
        }
    }

    /// A property as its annotation describes it; it is writable unless the
    /// annotation says otherwise.
    pub fn parse(ident: &str, kind: ValueKind, initial: ExternalValue, receiver: PropertyReceiver) -> (r:
        PropertySpec)
        ensures
            r.ident@ == ident@,
            r.name@ == name_or_derived(receiver.name, ident@),
            r.kind == kind,
            r.readonly == (receiver.readonly == Some(true)),
            r.initial@ == initial@,
    {
        let readonly = match receiver.readonly {
            Some(b) => b,
            None => false,
        };
        PropertySpec {
            ident: ident.to_owned(),
            name: name_or_derive(receiver.name, ident),
            readonly,
            kind,
            initial,
        }
    }

    /// The name under which the host page sees the property.
    pub fn js_name(&self) -> (r: String)
        ensures
            r@ == lower_camel_of(self.name@),
    {
        to_lower_camel_case(self.name.as_str())
    }

    /// The JavaScript type of the property, for type declarations.
    pub fn js_type(&self) -> (r: String)
        ensures
            r@ == js_type_of(self.kind),
    {
        match self.kind {
            ValueKind::Text => "string".to_owned(),
            ValueKind::Int => "number".to_owned(),
            ValueKind::Bool => "boolean".to_owned(),
        }
    }
}

/// A property as the custom element shim sees it.
#[derive(Debug, Clone)]
pub struct Property {
    name: String,
    readonly: bool,
}

impl Property {
    /// Create a property
    pub fn new(name: String, readonly: bool) -> (r: Property)
        ensures
            r.spec_name() == name@,
            r.spec_readonly() == readonly,
    {
        Property { name, readonly }
    }

    pub closed spec fn spec_name(&self) -> Seq<char> {
        self.name@
    }

    pub closed spec fn spec_readonly(&self) -> bool {
        self.readonly
    }

    /// Get name
    pub fn name(&self) -> (r: String)
        ensures
            r@ == self.spec_name(),
    {
        self.name.clone()
    }

    /// Is property readonly
    pub fn readonly(&self) -> (r: bool)
        ensures
            r == self.spec_readonly(),
    {
        self.readonly
    }
}

/// `p` is what the shim sees of the property `m`.
pub open spec fn shows_property(p: Property, m: PropertyModel) -> bool {
    p.spec_name() == lower_camel_of(m.name) && p.spec_readonly() == m.readonly
}

/// Why a set of specs does not make a descriptor.
#[derive(Debug)]
pub enum DescriptorError {
    DuplicateAttribute(String),
    DuplicateProperty(String),
    /// Two attributes, or two properties, are bound to the same field
    DuplicateField(String),
}

pub ghost struct DescriptorModel {
    pub attributes: Seq<AttributeModel>,
    pub properties: Seq<PropertyModel>,
}

pub open spec fn unique_names(s: Seq<Seq<char>>) -> bool {
    forall|i: int, j: int| 0 <= i < s.len() && 0 <= j < s.len() && i != j ==> s[i] != s[j]
}

/// `n` stands at two different positions of `s`.
pub open spec fn occurs_twice(s: Seq<Seq<char>>, n: Seq<char>) -> bool {
    exists|i: int, j: int| 0 <= i < s.len() && 0 <= j < s.len() && i != j && s[i] == n && s[j] == n
}

pub open spec fn attribute_names(d: DescriptorModel) -> Seq<Seq<char>> {
    d.attributes.map_values(|a: AttributeModel| a.name)
}

pub open spec fn attribute_fields(d: DescriptorModel) -> Seq<Seq<char>> {
    d.attributes.map_values(|a: AttributeModel| a.ident)
}

pub open spec fn property_fields(d: DescriptorModel) -> Seq<Seq<char>> {
    d.properties.map_values(|p: PropertyModel| p.ident)
}

pub open spec fn property_names(d: DescriptorModel) -> Seq<Seq<char>> {
    d.properties.map_values(|p: PropertyModel| p.name)
}

/// The position of `n` in `names`.
pub open spec fn index_of(names: Seq<Seq<char>>, n: Seq<char>) -> Option<int> {
    if exists|i: int| 0 <= i < names.len() && names[i] == n {
        Some(choose|i: int| 0 <= i < names.len() && names[i] == n)
    } else {
        None
    }
}

pub open spec fn opt_index(r: Option<usize>) -> Option<int> {
    match r {
        Some(i) => Some(i as int),
        None => None,
    }
}

pub open spec fn names_wf(d: DescriptorModel) -> bool {
    unique_names(attribute_names(d)) && unique_names(property_names(d))
}

/// Names are unique among the attributes and among the properties, and a
/// field carries at most one attribute and at most one property; a field may
/// be both an attribute and a property.
pub open spec fn descriptor_wf(d: DescriptorModel) -> bool {
    &&& names_wf(d)
    &&& unique_names(attribute_fields(d))
    &&& unique_names(property_fields(d))
}

pub proof fn lemma_index_of(names: Seq<Seq<char>>, n: Seq<char>, i: int)
    requires
        unique_names(names),
        0 <= i < names.len(),
        names[i] == n,
    ensures
        index_of(names, n) == Some(i),
{
    let k = choose|k: int| 0 <= k < names.len() && names[k] == n;
    assert(0 <= k < names.len() && names[k] == n);
}

/// The immutable description of a component type.
#[derive(Debug)]
pub struct Descriptor {
    attributes: Vec<AttributeSpec>,
    properties: Vec<PropertySpec>,
    events: Vec<EventSpec>,
}

impl View for Descriptor {
    type V = DescriptorModel;

    closed spec fn view(&self) -> DescriptorModel {
        DescriptorModel {
            attributes: self.attributes@.map_values(|a: AttributeSpec| a@),
            properties: self.properties@.map_values(|p: PropertySpec| p@),
        }
    }
}

fn first_duplicate(names: &Vec<&String>) -> (r: Option<usize>)
    ensures
        match r {
            Some(i) => i < names@.len() && exists|j: int|
                0 <= j < names@.len() && j != i && names@[j]@ == names@[i as int]@,
            None => forall|i: int, j: int|
                0 <= i < names@.len() && 0 <= j < names@.len() && i != j ==> names@[i]@
                    != names@[j]@,
        },
{
    let n = names.len();
    let mut i: usize = 0;
    while i < n
        invariant
            n == names@.len(),
            i <= n,
            forall|a: int, b: int|
                0 <= a < i && 0 <= b < n && a != b ==> names@[a]@ != names@[b]@,
        decreases n - i,
    {
        let mut j: usize = 0;
        while j < n
            invariant
                n == names@.len(),
                i < n,
                j <= n,
                forall|a: int, b: int|
                    0 <= a < i && 0 <= b < n && a != b ==> names@[a]@ != names@[b]@,
                forall|b: int| 0 <= b < j && b != i ==> names@[i as int]@ != names@[b]@,
            decreases n - j,
        {
            if j != i && same_text(names[i].as_str(), names[j].as_str()) {
                return Some(i);
            }
            j = j + 1;
        }
        i = i + 1;
    }
    None
}

impl Descriptor {
    /// Gather the specs of a component type; names must be unique among the
    /// attributes and among the properties, and no field may carry two
    /// attributes or two properties.
    pub fn new(
        attributes: Vec<AttributeSpec>,
        properties: Vec<PropertySpec>,
        events: Vec<EventSpec>,
    ) -> (r: Result<Descriptor, DescriptorError>)
        ensures
            ({
                let d = DescriptorModel {
                    attributes: attributes@.map_values(|a: AttributeSpec| a@),
                    properties: properties@.map_values(|p: PropertySpec| p@),
                };
                match r {
                    Ok(desc) => desc@ == d && descriptor_wf(d) && desc.events() == events@,
                    Err(DescriptorError::DuplicateAttribute(n)) => !unique_names(
                        attribute_names(d),
                    ) && occurs_twice(attribute_names(d), n@),
                    Err(DescriptorError::DuplicateProperty(n)) => unique_names(
                        attribute_names(d),
                    ) && !unique_names(property_names(d)) && occurs_twice(property_names(d), n@),
                    Err(DescriptorError::DuplicateField(n)) => names_wf(d) && (occurs_twice(
                        attribute_fields(d),
                        n@,
                    ) || occurs_twice(property_fields(d), n@)),
                }
            }),
    {
        let ghost d = DescriptorModel {
            attributes: attributes@.map_values(|a: AttributeSpec| a@),
            properties: properties@.map_values(|p: PropertySpec| p@),
        };
        let mut anames: Vec<&String> = Vec::new();
        let mut i: usize = 0;
        while i < attributes.len()
            invariant
                i <= attributes@.len(),
                anames@.len() == i,
                forall|k: int| 0 <= k < i ==> anames@[k]@ == attributes@[k].name@,
            decreases attributes@.len() - i,
        {
            anames.push(&attributes[i].name);
            i = i + 1;
        }
        proof {
            assert(attribute_names(d).len() == anames@.len());
            assert(forall|k: int| 0 <= k < anames@.len() ==> anames@[k]@ == attribute_names(d)[k]);
        }
        if let Some(k) = first_duplicate(&anames) {
            let n = attributes[k].name.clone();
            proof {
                let j = choose|j: int| 0 <= j < anames@.len() && j != k && anames@[j]@ == anames@[k as int]@;
                assert(attribute_names(d)[j] == n@ && attribute_names(d)[k as int] == n@);
            }
            return Err(DescriptorError::DuplicateAttribute(n));
        }
        let mut pnames: Vec<&String> = Vec::new();
        let mut i: usize = 0;
        while i < properties.len()
            invariant
                i <= properties@.len(),
                pnames@.len() == i,
                forall|k: int| 0 <= k < i ==> pnames@[k]@ == properties@[k].name@,
            decreases properties@.len() - i,
        {
            pnames.push(&properties[i].name);
            i = i + 1;
        }
        proof {
            assert(property_names(d).len() == pnames@.len());
            assert(forall|k: int| 0 <= k < pnames@.len() ==> pnames@[k]@ == property_names(d)[k]);
        }
        if let Some(k) = first_duplicate(&pnames) {
            let n = properties[k].name.clone();
            proof {
                let j = choose|j: int| 0 <= j < pnames@.len() && j != k && pnames@[j]@ == pnames@[k as int]@;
                assert(property_names(d)[j] == n@ && property_names(d)[k as int] == n@);
            }
            return Err(DescriptorError::DuplicateProperty(n));
        }
        let mut afields: Vec<&String> = Vec::new();
        let mut i: usize = 0;
        while i < attributes.len()
            invariant
                i <= attributes@.len(),
                afields@.len() == i,
                forall|k: int| 0 <= k < i ==> afields@[k]@ == attributes@[k].ident@,
            decreases attributes@.len() - i,
        {
            afields.push(&attributes[i].ident);
            i = i + 1;
        }
        proof {
            assert(attribute_fields(d).len() == afields@.len());
            assert(forall|k: int| 0 <= k < afields@.len() ==> afields@[k]@ == attribute_fields(d)[k]);
        }
        if let Some(k) = first_duplicate(&afields) {
            let n = attributes[k].ident.clone();
            proof {
                let j = choose|j: int| 0 <= j < afields@.len() && j != k && afields@[j]@ == afields@[k as int]@;
                assert(attribute_fields(d)[j] == n@ && attribute_fields(d)[k as int] == n@);
            }
            return Err(DescriptorError::DuplicateField(n));
        }
        let mut pfields: Vec<&String> = Vec::new();
        let mut i: usize = 0;
        while i < properties.len()
            invariant
                i <= properties@.len(),
                pfields@.len() == i,
                forall|k: int| 0 <= k < i ==> pfields@[k]@ == properties@[k].ident@,
            decreases properties@.len() - i,
        {
            pfields.push(&properties[i].ident);
            i = i + 1;
        }
        proof {
            assert(property_fields(d).len() == pfields@.len());
            assert(forall|k: int| 0 <= k < pfields@.len() ==> pfields@[k]@ == property_fields(d)[k]);
        }
        if let Some(k) = first_duplicate(&pfields) {
            let n = properties[k].ident.clone();
            proof {
                let j = choose|j: int| 0 <= j < pfields@.len() && j != k && pfields@[j]@ == pfields@[k as int]@;
                assert(property_fields(d)[j] == n@ && property_fields(d)[k as int] == n@);
            }
            return Err(DescriptorError::DuplicateField(n));
        }
        Ok(Descriptor { attributes, properties, events })
    }

    pub closed spec fn events(&self) -> Seq<EventSpec> {
        self.events@
    }

    /// The events of the component.
    pub fn event_specs(&self) -> (r: &Vec<EventSpec>)
        ensures
            r@ == self.events(),
    {
        &self.events
    }

    /// The names of the observed attributes, in order.
    pub fn attribute_names(&self) -> (r: Vec<String>)
        ensures
            r@.len() == self@.attributes.len(),
            forall|i: int| 0 <= i < r@.len() ==> #[trigger] r@[i]@ == self@.attributes[i].name,
    {
        let mut r: Vec<String> = Vec::new();
        let mut i: usize = 0;
        while i < self.attributes.len()
            invariant
                i <= self.attributes@.len(),
                r@.len() == i,
                forall|k: int| 0 <= k < i ==> #[trigger] r@[k]@ == self@.attributes[k].name,
            decreases self.attributes@.len() - i,
        {
            r.push(self.attributes[i].name.clone());
            i = i + 1;
        }
        r
    }

    /// The properties as the custom element shim sees them.
    pub fn properties(&self) -> (r: Vec<Property>)
        ensures
            r@.len() == self@.properties.len(),
            forall|i: int| 0 <= i < r@.len() ==> shows_property(#[trigger] r@[i], self@.properties[i]),
    {
        let mut r: Vec<Property> = Vec::new();
        let mut i: usize = 0;
        while i < self.properties.len()
            invariant
                i <= self.properties@.len(),
                r@.len() == i,
                forall|k: int| 0 <= k < i ==> shows_property(#[trigger] r@[k], self@.properties[k]),
            decreases self.properties@.len() - i,
        {
            let p = &self.properties[i];
            assert(self@.properties[i as int] == p@);
            r.push(Property::new(p.js_name(), p.readonly));
            i = i + 1;
        }
        r
    }

    pub fn attribute_count(&self) -> (r: usize)
        ensures
            r == self@.attributes.len(),
    {
        self.attributes.len()
    }

    pub fn property_count(&self) -> (r: usize)
        ensures
            r == self@.properties.len(),
    {
        self.properties.len()
    }

    pub fn attribute(&self, i: usize) -> (r: &AttributeSpec)
        requires
            i < self@.attributes.len(),
        ensures
            r@ == self@.attributes[i as int],
    {
        &self.attributes[i]
    }

    pub fn property(&self, i: usize) -> (r: &PropertySpec)
        requires
            i < self@.properties.len(),
        ensures
            r@ == self@.properties[i as int],
    {
        &self.properties[i]
    }

    /// The position of the attribute named `name`.
    pub fn attribute_index(&self, name: &str) -> (r: Option<usize>)
        requires
            self.wf(),
        ensures
            opt_index(r) == index_of(attribute_names(self@), name@),
    {
        let mut i: usize = 0;
        while i < self.attributes.len()
            invariant
                i <= self.attributes@.len(),
                self.wf(),
                forall|k: int| 0 <= k < i ==> attribute_names(self@)[k] != name@,
            decreases self.attributes@.len() - i,
        {
            if same_text(self.attributes[i].name.as_str(), name) {
                proof {
                    lemma_index_of(attribute_names(self@), name@, i as int);
                }
                return Some(i);
            }
            i = i + 1;
        }
        None
    }

    /// The position of the property named `name`.
    pub fn property_index(&self, name: &str) -> (r: Option<usize>)
        requires
            self.wf(),
        ensures
            opt_index(r) == index_of(property_names(self@), name@),
    {
        let mut i: usize = 0;
        while i < self.properties.len()
            invariant
                i <= self.properties@.len(),
                self.wf(),
                forall|k: int| 0 <= k < i ==> property_names(self@)[k] != name@,
            decreases self.properties@.len() - i,
        {
            if same_text(self.properties[i].name.as_str(), name) {
                proof {
                    lemma_index_of(property_names(self@), name@, i as int);
                }
                return Some(i);
            }
            i = i + 1;
        }
        None
    }

    pub open spec fn wf(&self) -> bool {
        descriptor_wf(self@)
    }
}

} // verus!
