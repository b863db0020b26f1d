use dioxus_web_component::bridge::{answer_for, drain, Lifecycle, RustComponentInstance, Shared};
use dioxus_web_component::component::ComponentState;
use dioxus_web_component::descriptor::{
    AttributeReceiver, AttributeSpec, Descriptor, DescriptorError, Property, PropertyReceiver,
    PropertySpec,
};
use dioxus_web_component::event::{CustomEventOptions, EventReceiver, EventSpec};
use dioxus_web_component::message::{Message, Reply};
use dioxus_web_component::registry::{register_dioxus_web_component, Registry, RustComponent};
use dioxus_web_component::style::InjectedStyle;
use dioxus_web_component::value::{parse_value, ExternalValue, ValueKind};

fn int_of(v: &ExternalValue) -> Option<i64> {
    match v {
        ExternalValue::Int(n) => Some(*n),
        _ => None,
    }
}

fn text_of(v: &ExternalValue) -> Option<String> {
    match v {
        ExternalValue::Text(s) => Some(s.clone()),
        _ => None,
    }
}

fn counter() -> Descriptor {
    let count = AttributeSpec::new("count", ValueKind::Int, ExternalValue::Int(0));
    let mut label = AttributeSpec::new("label", ValueKind::Text, ExternalValue::Null);
    label.optional = true;
    let title = PropertySpec::new("title", ValueKind::Text, ExternalValue::Text("none".into()));
    let mut version = PropertySpec::new("version", ValueKind::Int, ExternalValue::Int(3));
    version.readonly = true;
    let count_property = PropertySpec::new("count", ValueKind::Int, ExternalValue::Int(0));
    Descriptor::new(
        vec![count, label],
        vec![title, version, count_property],
        vec![EventSpec::new("on_click")],
    )
        .unwrap()
}

fn connected(desc: &Descriptor, current: Vec<Option<String>>) -> RustComponentInstance {
    let mut instance = RustComponentInstance::new(desc.attribute_names());
    assert!(instance.connect());
    instance.install_sender(&current);
    instance
}

#[test]
fn parse_int_values() {
    assert_eq!(parse_value(ValueKind::Int, "5").as_ref().and_then(int_of), Some(5));
    assert_eq!(parse_value(ValueKind::Int, "-42").as_ref().and_then(int_of), Some(-42));
    assert_eq!(parse_value(ValueKind::Int, "+7").as_ref().and_then(int_of), Some(7));
    assert_eq!(
        parse_value(ValueKind::Int, "9223372036854775807").as_ref().and_then(int_of),
        Some(i64::MAX)
    );
    assert_eq!(
        parse_value(ValueKind::Int, "-9223372036854775808").as_ref().and_then(int_of),
        Some(i64::MIN)
    );
    assert!(parse_value(ValueKind::Int, "9223372036854775808").is_none());
    assert!(parse_value(ValueKind::Int, "").is_none());
    assert!(parse_value(ValueKind::Int, "-").is_none());
    assert!(parse_value(ValueKind::Int, "1x").is_none());
}

#[test]
fn parse_bool_and_text_values() {
    assert!(matches!(parse_value(ValueKind::Bool, "true"), Some(ExternalValue::Bool(true))));
    assert!(matches!(parse_value(ValueKind::Bool, "false"), Some(ExternalValue::Bool(false))));
    assert!(parse_value(ValueKind::Bool, "yes").is_none());
    assert_eq!(
        parse_value(ValueKind::Text, "hello").as_ref().and_then(text_of),
        Some("hello".to_string())
    );
}

#[test]
fn names_are_derived_with_case_conversion() {
    let attr = AttributeSpec::new("max_value", ValueKind::Int, ExternalValue::Int(0));
    assert_eq!(attr.name, "max-value");
    let prop = PropertySpec::new("max_value", ValueKind::Int, ExternalValue::Int(0));
    assert_eq!(prop.name, "max-value");
    assert_eq!(prop.js_name(), "maxValue");
    assert_eq!(prop.js_type(), "number");
}

#[test]
fn event_names_drop_the_on_prefix() {
    assert_eq!(EventSpec::new("on_value_changed").web_event_name(), "value-changed");
    assert_eq!(EventSpec::new("onclick").web_event_name(), "click");
    let mut named = EventSpec::new("on_click");
    named.name = Some("custom-click".to_string());
    assert_eq!(named.web_event_name(), "custom-click");
    let options = EventSpec::new("on_x").options();
    assert_eq!(options, CustomEventOptions::default());
    assert!(options.can_bubble && options.cancelable);
}

#[test]
fn descriptor_rejects_duplicate_names() {
    let a = AttributeSpec::new("count", ValueKind::Int, ExternalValue::Int(0));
    let b = AttributeSpec::new("count", ValueKind::Int, ExternalValue::Int(1));
    match Descriptor::new(vec![a, b], vec![], vec![]) {
        Err(DescriptorError::DuplicateAttribute(n)) => assert_eq!(n, "count"),
        other => panic!("unexpected {other:?}"),
    }
    let p = PropertySpec::new("title", ValueKind::Text, ExternalValue::Null);
    let q = PropertySpec::new("title", ValueKind::Text, ExternalValue::Null);
    match Descriptor::new(vec![], vec![p, q], vec![]) {
        Err(DescriptorError::DuplicateProperty(n)) => assert_eq!(n, "title"),
        other => panic!("unexpected {other:?}"),
    }
}

#[test]
fn observed_attributes_are_all_attribute_names() {
    let desc = counter();
    assert_eq!(desc.attribute_names(), vec!["count".to_string(), "label".to_string()]);
    let props = desc.properties();
    assert_eq!(props.len(), 3);
    assert_eq!(props[2].name(), "count");
    assert_eq!(props[0].name(), "title");
    assert!(!props[0].readonly());
    assert!(props[1].readonly());
    assert_eq!(desc.event_specs().len(), 1);
}

#[test]
fn unobserved_attribute_changes_nothing() {
    let desc = counter();
    let mut state = ComponentState::new(&desc);
    state.set_attribute(&desc, "other", Some("9".to_string()));
    assert_eq!(int_of(&state.get_property(&desc, "count")), Some(0));
}

#[test]
fn same_value_attribute_change_sends_nothing() {
    let desc = counter();
    let mut instance = connected(&desc, vec![None, None]);
    instance.attribute_changed("count".into(), Some("5".into()), Some("5".into()));
    instance.attribute_changed("count".into(), None, None);
    assert!(instance.receive().is_none());
}

#[test]
fn replay_reports_current_attributes() {
    let desc = counter();
    let mut instance = connected(&desc, vec![Some("x".into()), Some("hi".into())]);
    let mut state = ComponentState::new(&desc);
    drain(&mut instance, &desc, &mut state);
    // "x" does not parse as an integer: the required attribute falls back to its initial value
    assert_eq!(int_of(&state.get_property(&desc, "count")), Some(0));
    assert_eq!(text_of(&state.field("label")), Some("hi".to_string()));

    let mut instance = connected(&desc, vec![Some("12".into()), None]);
    let mut state = ComponentState::new(&desc);
    drain(&mut instance, &desc, &mut state);
    assert_eq!(int_of(&state.get_property(&desc, "count")), Some(12));
}

#[test]
fn shared_replay_skips_absent_attributes() {
    let shared = Shared::new(vec!["a".into(), "b".into()]);
    let messages = shared.replay(&vec![None, Some("1".into())]);
    assert_eq!(messages.len(), 1);
    match &messages[0] {
        Message::SetAttribute { name, value } => {
            assert_eq!(name, "b");
            assert_eq!(value.as_deref(), Some("1"));
        }
        other => panic!("unexpected {other:?}"),
    }
}

#[test]
fn read_sees_the_earlier_change_only() {
    let desc = counter();
    let mut instance = connected(&desc, vec![None, None]);
    let mut state = ComponentState::new(&desc);
    instance.attribute_changed("count".into(), None, Some("1".into()));
    assert!(instance.get_property("count".into(), 7));
    instance.attribute_changed("count".into(), Some("1".into()), Some("2".into()));
    let replies = drain(&mut instance, &desc, &mut state);
    assert_eq!(replies.len(), 1);
    assert_eq!(replies[0].reply, 7);
    assert_eq!(int_of(&replies[0].value), Some(1));
    assert_eq!(int_of(&state.get_property(&desc, "count")), Some(2));
}

#[test]
fn nothing_is_sent_after_disconnect() {
    let desc = counter();
    let mut instance = connected(&desc, vec![None, None]);
    let mut state = ComponentState::new(&desc);
    instance.disconnect();
    instance.set_property("title".into(), ExternalValue::Text("new".into()));
    instance.attribute_changed("count".into(), None, Some("3".into()));
    assert!(!instance.get_property("title".into(), 1));
    let replies = drain(&mut instance, &desc, &mut state);
    assert!(replies.is_empty());
    assert_eq!(text_of(&state.get_property(&desc, "title")), Some("none".to_string()));
    assert_eq!(int_of(&state.get_property(&desc, "count")), Some(0));
    assert!(!instance.connect());
}

#[test]
fn property_round_trip() {
    let desc = counter();
    let mut instance = connected(&desc, vec![None, None]);
    let mut state = ComponentState::new(&desc);
    instance.set_property("title".into(), ExternalValue::Text("hello".into()));
    instance.get_property("title".into(), 2);
    let replies = drain(&mut instance, &desc, &mut state);
    assert_eq!(replies.len(), 1);
    assert_eq!(text_of(&replies[0].value), Some("hello".to_string()));
}

#[test]
fn property_of_wrong_kind_is_ignored() {
    let desc = counter();
    let mut state = ComponentState::new(&desc);
    state.set_property(&desc, "title", ExternalValue::Int(4));
    assert_eq!(text_of(&state.get_property(&desc, "title")), Some("none".to_string()));
}

#[test]
fn readonly_property_is_not_written() {
    let desc = counter();
    let mut instance = connected(&desc, vec![None, None]);
    let mut state = ComponentState::new(&desc);
    instance.set_property("version".into(), ExternalValue::Int(99));
    instance.get_property("version".into(), 5);
    let replies = drain(&mut instance, &desc, &mut state);
    assert_eq!(int_of(&replies[0].value), Some(3));
}

#[test]
fn unknown_property_reads_undefined() {
    let desc = counter();
    let state = ComponentState::new(&desc);
    assert!(matches!(state.get_property(&desc, "missing"), ExternalValue::Undefined));
}

#[test]
fn optional_attribute_removed_becomes_undefined() {
    let desc = counter();
    let mut state = ComponentState::new(&desc);
    state.set_attribute(&desc, "label", Some("x".into()));
    assert_eq!(text_of(&state.field("label")), Some("x".to_string()));
    state.set_attribute(&desc, "label", None);
    assert!(matches!(state.field("label"), ExternalValue::Undefined));
}

#[test]
fn count_attribute_scenario() {
    let count = AttributeSpec::new("count", ValueKind::Int, ExternalValue::Int(0));
    let desc = Descriptor::new(vec![count], vec![], vec![]).unwrap();
    let mut instance = connected(&desc, vec![None]);
    let mut state = ComponentState::new(&desc);
    drain(&mut instance, &desc, &mut state);
    assert_eq!(int_of(&state.field("count")), Some(0));

    instance.attribute_changed("count".into(), None, Some("5".into()));
    drain(&mut instance, &desc, &mut state);
    assert_eq!(int_of(&state.field("count")), Some(5));

    instance.attribute_changed("count".into(), Some("5".into()), Some("5".into()));
    assert!(instance.receive().is_none());
}

#[test]
fn messages_before_mount_are_dropped() {
    let desc = counter();
    let mut instance = RustComponentInstance::new(desc.attribute_names());
    instance.attribute_changed("count".into(), None, Some("4".into()));
    assert!(instance.connect());
    instance.set_property("title".into(), ExternalValue::Text("t".into()));
    instance.install_sender(&vec![Some("8".into()), None]);
    let mut state = ComponentState::new(&desc);
    drain(&mut instance, &desc, &mut state);
    assert_eq!(int_of(&state.get_property(&desc, "count")), Some(8));
    assert_eq!(text_of(&state.get_property(&desc, "title")), Some("none".to_string()));
}

#[test]
fn handle_message_answers_reads() {
    let desc = counter();
    let mut state = ComponentState::new(&desc);
    let reply = state.handle_message(&desc, Message::Get { name: "count".into(), reply: 11 });
    let reply = reply.unwrap();
    assert_eq!(reply.reply, 11);
    assert_eq!(int_of(&reply.value), Some(0));
    assert!(state
        .handle_message(&desc, Message::SetAttribute { name: "count".into(), value: Some("3".into()) })
        .is_none());
    assert_eq!(int_of(&state.get_property(&desc, "count")), Some(3));
}

#[test]
fn registry_keeps_last_registration() {
    let mut registry = Registry::new();
    let bad = register_dioxus_web_component(
        &mut registry,
        "Bad",
        vec![],
        vec![],
        InjectedStyle::default(),
    );
    assert!(bad.is_err());
    assert!(registry.lookup("Bad").is_none());
    register_dioxus_web_component(
        &mut registry,
        "my-counter",
        vec!["count".into()],
        vec![Property::new("title".into(), false)],
        InjectedStyle::css("p { color: red; }"),
    )
    .unwrap();
    registry
        .register(
            "my-counter",
            RustComponent::new(vec!["a".into(), "b".into()], vec![], InjectedStyle::stylesheet("s.css")),
        )
        .unwrap();
    let component = registry.lookup("my-counter").unwrap();
    assert_eq!(component.attributes(), vec!["a".to_string(), "b".to_string()]);
    assert!(component.properties().is_empty());
    assert!(matches!(component.style(), InjectedStyle::Stylesheet(u) if u == "s.css"));
    let instance = component.new_instance();
    assert_eq!(format!("{instance:?}").is_empty(), false);
}

#[test]
fn lifecycle_starts_unconnected() {
    let mut instance = RustComponentInstance::new(vec![]);
    assert!(instance.connect());
    assert!(!instance.connect());
    instance.disconnect();
    assert!(!instance.connect());
    assert_ne!(Lifecycle::Connected, Lifecycle::Disconnected);
}

#[test]
fn annotations_override_derived_values() {
    let attr = AttributeSpec::parse(
        "r#type",
        "Option < String >",
        ValueKind::Text,
        ExternalValue::Null,
        AttributeReceiver { name: None, option: None },
    );
    assert_eq!(attr.name, "type");
    assert!(attr.optional);
    let attr = AttributeSpec::parse(
        "max_len",
        "Option < u32 >",
        ValueKind::Int,
        ExternalValue::Int(0),
        AttributeReceiver { name: Some("maxlength".into()), option: Some(false) },
    );
    assert_eq!(attr.name, "maxlength");
    assert!(!attr.optional);
    let attr = AttributeSpec::parse(
        "size",
        "u32",
        ValueKind::Int,
        ExternalValue::Int(0),
        AttributeReceiver { name: None, option: None },
    );
    assert!(!attr.optional);

    let prop = PropertySpec::parse(
        "item_count",
        ValueKind::Int,
        ExternalValue::Int(0),
        PropertyReceiver { name: None, readonly: Some(true) },
    );
    assert_eq!(prop.name, "item-count");
    assert!(prop.readonly);

    let event = EventSpec::parse("on_select", EventReceiver { no_bubble: Some(true), ..Default::default() });
    assert!(!event.can_bubble);
    assert!(event.cancelable);
    assert_eq!(event.web_event_name(), "select");
    let event = EventSpec::parse("r#on_close", EventReceiver::default());
    assert!(event.can_bubble && event.cancelable);
    assert_eq!(event.web_event_name(), "close");
}

#[test]
fn read_answer_is_found_by_ticket() {
    let replies = vec![
        Reply { reply: 1, value: ExternalValue::Int(10) },
        Reply { reply: 2, value: ExternalValue::Bool(true) },
    ];
    assert_eq!(int_of(&answer_for(&replies, 1)), Some(10));
    assert!(matches!(answer_for(&replies, 2), ExternalValue::Bool(true)));
    assert!(matches!(answer_for(&replies, 3), ExternalValue::Undefined));
}

#[test]
fn attribute_only_name_reads_undefined() {
    let desc = counter();
    let mut state = ComponentState::new(&desc);
    state.set_attribute(&desc, "label", Some("x".into()));
    assert!(matches!(state.get_property(&desc, "label"), ExternalValue::Undefined));
    let reply = state.handle_message(&desc, Message::Get { name: "nothing".into(), reply: 3 });
    assert!(matches!(reply.unwrap().value, ExternalValue::Undefined));
}

#[test]
fn attribute_and_property_share_their_field() {
    let desc = counter();
    let mut state = ComponentState::new(&desc);
    state.set_attribute(&desc, "count", Some("6".into()));
    assert_eq!(int_of(&state.get_property(&desc, "count")), Some(6));
    state.set_property(&desc, "count", ExternalValue::Int(9));
    assert_eq!(int_of(&state.field("count")), Some(9));
}

#[test]
fn descriptor_rejects_a_field_bound_twice() {
    let a = AttributeSpec::new("count", ValueKind::Int, ExternalValue::Int(0));
    let mut b = AttributeSpec::new("count", ValueKind::Int, ExternalValue::Int(1));
    b.name = "other".into();
    match Descriptor::new(vec![a, b], vec![], vec![]) {
        Err(DescriptorError::DuplicateField(n)) => assert_eq!(n, "count"),
        other => panic!("unexpected {other:?}"),
    }
}

#[test]
fn registry_keeps_the_style() {
    let mut registry = Registry::new();
    register_dioxus_web_component(
        &mut registry,
        "my-box",
        vec![],
        vec![],
        InjectedStyle::css("b {}"),
    )
    .unwrap();
    let component = registry.lookup("my-box").unwrap();
    assert!(matches!(component.style(), InjectedStyle::Css(c) if c == "b {}"));
}
