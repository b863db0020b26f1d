use vstd::prelude::*;

use crate::naming::{kebab_of, strip_prefixes, to_kebab_case, trim_prefixes, unraw, unraw_spec};

verus! {

/// Options of a custom event dispatched on the host element; both are `true`
/// by default.
#[derive(Clone, Copy, Debug, PartialEq, Eq, Structural)]
pub struct CustomEventOptions {
    /// Whether the event bubbles up through the tree
    pub can_bubble: bool,
    /// Whether the event is cancelable
    pub cancelable: bool,
}

impl Default for CustomEventOptions {
    fn default() -> (r: Self)
        ensures
            r.can_bubble && r.cancelable,
    {
        CustomEventOptions { can_bubble: true, cancelable: true }
    }
}

/// An event that the component dispatches on its host element.
#[derive(Debug)]
pub struct EventSpec {
    /// Identifier of the handler in the component
    pub ident: String,
    /// Name of the event on the host page, when it is not derived from `ident`
    pub name: Option<String>,
    pub can_bubble: bool,
    pub cancelable: bool,
}

/// What the annotation of an event handler may set.
#[derive(Debug)]
pub struct EventReceiver {
    /// Name of the event on the host page
    pub name: Option<String>,
    /// The event does not bubble
    pub no_bubble: Option<bool>,
    /// The event cannot be cancelled
    pub no_cancel: Option<bool>,
}

impl Default for EventReceiver {
    fn default() -> (r: Self)
        ensures
            r.name is None,
            r.no_bubble is None,
            r.no_cancel is None,
    {
        EventReceiver { name: None, no_bubble: None, no_cancel: None }
    }
}

pub open spec fn flag_set(b: Option<bool>) -> bool {
    match b {
        Some(x) => x,
        None => false,
    }
}

/// The event name derived from a handler identifier: the raw marker and
/// leading `on_` and `on` are removed, and the rest is kebab-cased.
pub open spec fn derived_event_name(ident: Seq<char>) -> Seq<char> {
    kebab_of(strip_prefixes(strip_prefixes(unraw_spec(ident), "on_"@), "on"@))
}

impl EventSpec {
    /// An event with a derived name that bubbles and can be cancelled.
    pub fn new(ident: &str) -> (r: EventSpec)
        ensures
            r.ident@ == ident@,
            r.name is None,
            r.can_bubble,
            r.cancelable,
    {
        EventSpec { ident: ident.to_owned(), name: None, can_bubble: true, cancelable: true }
    }

    /// An event as its annotation describes it.
    pub fn parse(ident: &str, receiver: EventReceiver) -> (r: EventSpec)
        ensures
            r.ident@ == ident@,
            r.name == receiver.name,
            r.can_bubble == !flag_set(receiver.no_bubble),
            r.cancelable == !flag_set(receiver.no_cancel),
    {
        let can_bubble = match receiver.no_bubble {
            Some(b) => !b,
            None => true,
        };
        let cancelable = match receiver.no_cancel {
            Some(b) => !b,
            None => true,
        };
        EventSpec { ident: ident.to_owned(), name: receiver.name, can_bubble, cancelable }
    }

    /// The name of the event on the host page.
    pub fn web_event_name(&self) -> (r: String)
        ensures
            r@ == match self.name {
                Some(n) => n@,
                None => derived_event_name(self.ident@),
            },
    {
        match &self.name {
            Some(n) => n.clone(),
            None => {
                let base = trim_prefixes(trim_prefixes(unraw(self.ident.as_str()), "on_"), "on");
                to_kebab_case(base)
            },
        }
    }

    /// The options with which the event is dispatched.
    pub fn options(&self) -> (r: CustomEventOptions)
        ensures
            r.can_bubble == self.can_bubble,
            r.cancelable == self.cancelable,
    {
        CustomEventOptions { can_bubble: self.can_bubble, cancelable: self.cancelable }
    }
}

} // verus!
