use vstd::prelude::*;

use crate::bridge::{text_seq, Lifecycle, RustComponentInstance};
use crate::descriptor::{index_of, lemma_index_of, unique_names, Property};
use crate::style::InjectedStyle;
use crate::tag::{check_tag, same_text, tag_problem, InvalidTagError};

verus! {

/// What the custom element shim reads of a registered component.
pub ghost struct ComponentModel {
    pub attributes: Seq<Seq<char>>,
    pub properties: Seq<(Seq<char>, bool)>,
    pub style: InjectedStyle,
}

pub open spec fn property_models(v: Seq<Property>) -> Seq<(Seq<char>, bool)> {
    v.map_values(|p: Property| (p.spec_name(), p.spec_readonly()))
}

pub open spec fn same_property(a: Property, b: Property) -> bool {
    a.spec_name() == b.spec_name() && a.spec_readonly() == b.spec_readonly()
}

/// A registered component type: its observed attributes, its properties and
/// its style.
#[derive(Debug)]
pub struct RustComponent {
    attributes: Vec<String>,
    properties: Vec<Property>,
    style: InjectedStyle,
}

impl View for RustComponent {
    type V = ComponentModel;

    closed spec fn view(&self) -> ComponentModel {
        ComponentModel {
            attributes: text_seq(self.attributes@),
            properties: property_models(self.properties@),
            style: self.style,
        }
    }
}

fn copy_names(v: &Vec<String>) -> (r: Vec<String>)
    ensures
        text_seq(r@) == text_seq(v@),
{
    let mut r: Vec<String> = Vec::new();
    let mut i: usize = 0;
    while i < v.len()
        invariant
            i <= v@.len(),
            r@.len() == i,
            forall|k: int| 0 <= k < i ==> #[trigger] r@[k]@ == v@[k]@,
        decreases v@.len() - i,
    {
        r.push(v[i].clone());
        i = i + 1;
    }
    assert(text_seq(r@) =~= text_seq(v@));
    r
}

impl RustComponent {
    pub fn new(attributes: Vec<String>, properties: Vec<Property>, style: InjectedStyle) -> (r:
        RustComponent)
        ensures
            r@.attributes == text_seq(attributes@),
            r@.properties == property_models(properties@),
            r@.style == style,
    {
        RustComponent { attributes, properties, style }
    }

    /// The observed attribute names.
    pub fn attributes(&self) -> (r: Vec<String>)
        ensures
            text_seq(r@) == self@.attributes,
    {
        copy_names(&self.attributes)
    }

    /// The properties.
    pub fn properties(&self) -> (r: Vec<Property>)
        ensures
            property_models(r@) == self@.properties,
    {
        let mut r: Vec<Property> = Vec::new();
        let mut i: usize = 0;
        while i < self.properties.len()
            invariant
                i <= self.properties@.len(),
                r@.len() == i,
                forall|k: int| 0 <= k < i ==> same_property(#[trigger] r@[k], self.properties@[k]),
            decreases self.properties@.len() - i,
        {
            let p = &self.properties[i];
            r.push(Property::new(p.name(), p.readonly()));
            i = i + 1;
        }
        assert(property_models(r@) =~= property_models(self.properties@));
        r
    }

    /// The style injected into each shadow root.
    pub fn style(&self) -> (r: &InjectedStyle)
        ensures
            *r == self@.style,
    {
        &self.style
    }

    /// The bridge of a new element of this type.
    pub fn new_instance(&self) -> (r: RustComponentInstance)
        ensures
            r@.attributes == self@.attributes,
            r@.lifecycle == Lifecycle::Unconnected,
            r@.channel is None,
    {
        RustComponentInstance::new(self.attributes())
    }
}

/// One registered tag.
#[derive(Debug)]
pub struct RegistryEntry {
    tag: String,
    component: RustComponent,
}

/// The table from custom element tag to component type.
#[derive(Debug)]
pub struct Registry {
    entries: Vec<RegistryEntry>,
}

pub open spec fn entry_tags(v: Seq<RegistryEntry>) -> Seq<Seq<char>> {
    v.map_values(|e: RegistryEntry| e.spec_tag())
}

impl RegistryEntry {
    pub closed spec fn spec_tag(&self) -> Seq<char> {
        self.tag@
    }

    pub closed spec fn spec_component(&self) -> ComponentModel {
        self.component@
    }
}

impl Registry {
    pub closed spec fn tags(&self) -> Seq<Seq<char>> {
        entry_tags(self.entries@)
    }

    /// The component registered under `tag`, if any.
    pub closed spec fn lookup_spec(&self, tag: Seq<char>) -> Option<ComponentModel> {
        match index_of(self.tags(), tag) {
            Some(i) => Some(self.entries@[i].spec_component()),
            None => None,
        }
    }

    pub closed spec fn wf(&self) -> bool {
        unique_names(self.tags())
    }

    /// An empty registry.
    pub fn new() -> (r: Registry)
        ensures
            r.wf(),
            forall|t: Seq<char>| r.lookup_spec(t) is None,
    {
        Registry { entries: Vec::new() }
    }

    fn position(&self, tag: &str) -> (r: Option<usize>)
        requires
            self.wf(),
        ensures
            match r {
                Some(i) => index_of(self.tags(), tag@) == Some(i as int),
                None => index_of(self.tags(), tag@) is None,
            },
    {
        let mut i: usize = 0;
        while i < self.entries.len()
            invariant
                i <= self.entries@.len(),
                self.wf(),
                forall|k: int| 0 <= k < i ==> self.tags()[k] != tag@,
            decreases self.entries@.len() - i,
        {
            if same_text(self.entries[i].tag.as_str(), tag) {
                proof {
                    lemma_index_of(self.tags(), tag@, i as int);
                }
                return Some(i);
            }
            i = i + 1;
        }
        None
    }

    /// The component registered under `tag`.
    pub fn lookup(&self, tag: &str) -> (r: Option<&RustComponent>)
        requires
            self.wf(),
        ensures
            match r {
                Some(c) => self.lookup_spec(tag@) == Some(c@),
                None => self.lookup_spec(tag@) is None,
            },
    {
        match self.position(tag) {
            Some(i) => Some(&self.entries[i].component),
            None => None,
        }
    }

    /// Register a component under a tag; a later registration of the same tag
    /// replaces the earlier one. Fails when the tag is not a valid custom
    /// element name, and then changes nothing.
    pub fn register(&mut self, tag: &str, component: RustComponent) -> (r: Result<
        (),
        InvalidTagError,
    >)
        requires
            old(self).wf(),
        ensures
            final(self).wf(),
            match r {
                Ok(()) => tag_problem(tag@) is None,
                Err(e) => tag_problem(tag@) == Some(e@),
            },
            r is Ok ==> final(self).lookup_spec(tag@) == Some(component@),
            forall|t: Seq<char>|
                t != tag@ || r is Err ==> #[trigger] final(self).lookup_spec(t) == old(self).lookup_spec(t),
    {
        match check_tag(tag) {
            Err(e) => Err(e),
            Ok(()) => {
                let ghost model = component@;
                let ghost before = self.entries@;
                let entry = RegistryEntry { tag: tag.to_owned(), component };
                match self.position(tag) {
                    Some(i) => {
                        self.entries.set(i, entry);
                        proof {
                            assert(self.tags() =~= entry_tags(before).update(i as int, tag@));
                            lemma_index_of(self.tags(), tag@, i as int);
                            assert forall|t: Seq<char>| t != tag@ implies #[trigger] self.lookup_spec(t)
                                == old(self).lookup_spec(t) by {
                                lemma_lookup_same(entry_tags(before), self.tags(), t, i as int);
                            }
                        }
                    },
                    None => {
                        self.entries.push(entry);
                        proof {
                            assert(self.tags() =~= entry_tags(before).push(tag@));
                            lemma_index_of(self.tags(), tag@, before.len() as int);
                            assert forall|t: Seq<char>| t != tag@ implies #[trigger] self.lookup_spec(t)
                                == old(self).lookup_spec(t) by {
                                lemma_lookup_same(entry_tags(before), self.tags(), t, before.len() as int);
                            }
                        }
                    },
                }
                Ok(())
            },
        }
    }
}

/// Changing the name at position `i` alone keeps the position of every other name.
proof fn lemma_lookup_same(a: Seq<Seq<char>>, b: Seq<Seq<char>>, t: Seq<char>, i: int)
    requires
        b.len() >= a.len(),
        b.len() <= a.len() + 1,
        0 <= i < b.len(),
        forall|k: int| 0 <= k < b.len() && k != i ==> k < a.len() && #[trigger] b[k] == a[k],
        b[i] != t,
        i < a.len() ==> a[i] != t,
        unique_names(a),
    ensures
        index_of(a, t) == index_of(b, t),
{
    if exists|k: int| 0 <= k < a.len() && a[k] == t {
        let k = choose|k: int| 0 <= k < a.len() && a[k] == t;
        assert(k != i);
        assert(b[k] == t);
    }
    if exists|k: int| 0 <= k < b.len() && b[k] == t {
        let k = choose|k: int| 0 <= k < b.len() && b[k] == t;
        assert(a[k] == t);
    }
}

/// Register a component type under its tag, with its observed attributes,
/// its properties and its style.
pub fn register_dioxus_web_component(
    registry: &mut Registry,
    custom_tag: &str,
    attributes: Vec<String>,
    properties: Vec<Property>,
    style: InjectedStyle,
) -> (r: Result<(), InvalidTagError>)
    requires
        old(registry).wf(),
    ensures
        final(registry).wf(),
        match r {
            Ok(()) => tag_problem(custom_tag@) is None,
            Err(e) => tag_problem(custom_tag@) == Some(e@),
        },
        r is Ok ==> final(registry).lookup_spec(custom_tag@) == Some(
            ComponentModel {
                attributes: text_seq(attributes@),
                properties: property_models(properties@),
                style,
            },
        ),
        forall|t: Seq<char>|
            t != custom_tag@ || r is Err ==> #[trigger] final(registry).lookup_spec(t) == old(
                registry,
            ).lookup_spec(t),
{
    let component = RustComponent::new(attributes, properties, style);
    registry.register(custom_tag, component)
}

} // verus!
