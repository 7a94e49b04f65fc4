use vulkan_api_registry::events::{Attribute, Cursor, Event};
use vulkan_api_registry::scope::XmlContents;
use vulkan_api_registry::errors::ParseError;
use vulkan_api_registry::xast::Node;
use vulkan_api_registry::xast::Content;
use vulkan_api_registry::fields::{EnumValue, StructMember, TyperefInfo, parse_constness,
    parse_enum_value, is_private_member};
use vulkan_api_registry::strutil::{parse_isize, parse_u8, parse_bool, split_csv, str_eq};
use vulkan_api_registry::typeinfo::{HandleType, TypeInfo};
use vulkan_api_registry::command::{CommandBufferLevel, CommandInfo};
use vulkan_api_registry::enums::{EnumsInfo, EnumsType};
use vulkan_api_registry::extension::{EnumExtensionStrategy, ExtensionInfo, ExtensionType,
    FeatureInfo, Requirement};
use vulkan_api_registry::registry::{Registry, RegistryFilter};
use vulkan_api_registry::resolve::{enum_offset, resolve_registry};
use vulkan_api_registry::namemap::NameMap;
use vulkan_api_registry::ffi::{Flags, NondispatchableHandle, NullableHandle};

fn attr(name: &str, value: &str) -> Attribute {
    Attribute { name: name.to_string(), value: value.to_string() }
}

fn start(name: &str, attrs: &[(&str, &str)]) -> Event {
    Event::StartTag {
        name: name.to_string(),
        attributes: attrs.iter().map(|(n, v)| attr(n, v)).collect(),
    }
}

fn text(s: &str) -> Event {
    Event::Text(s.to_string())
}

fn elem_text(name: &str, body: &str) -> Vec<Event> {
    vec![start(name, &[]), text(body), Event::EndTag]
}

fn node(name: &str, attrs: &[(&str, &str)], contents: Vec<Content>) -> Node {
    Node {
        name: name.to_string(),
        attributes: attrs.iter().map(|(n, v)| attr(n, v)).collect(),
        contents,
    }
}

fn child_text(name: &str, body: &str) -> Content {
    Content::Child(node(name, &[], vec![Content::Text(body.to_string())]))
}

// The scoping utility yields exactly the events strictly inside an element:
// for `<a><b/><c><d/></c></a>`, positioned after `<a>`, the scope yields the
// six inner events and leaves the cursor exactly after `</a>`.
#[test]
fn scope_yields_exact_contents() {
    let events = vec![
        // already past <a>
        start("b", &[]),
        Event::EndTag,
        start("c", &[]),
        start("d", &[]),
        Event::EndTag,
        Event::EndTag,
        Event::EndTag, // </a>
        text("tail"),
    ];
    let mut c = Cursor::new(events);
    let mut s = XmlContents::new_inside();
    let inside = s.drain(&mut c);
    assert_eq!(inside.len(), 6);
    assert!(matches!(&inside[0], Event::StartTag { name, .. } if name == "b"));
    assert!(matches!(&inside[1], Event::EndTag));
    assert!(matches!(&inside[2], Event::StartTag { name, .. } if name == "c"));
    assert!(matches!(&inside[3], Event::StartTag { name, .. } if name == "d"));
    assert!(matches!(&inside[4], Event::EndTag));
    assert!(matches!(&inside[5], Event::EndTag));
    assert!(s.is_outside_scope());
    // The cursor stands exactly after `</a>`: the next event is the marker.
    assert!(matches!(c.next(), Some(Event::Text(t)) if t == "tail"));
}

fn minimal_types_section(extra: Vec<Event>) -> Vec<Event> {
    let mut events = vec![start("registry", &[]), start("types", &[])];
    events.extend(vec![
        start("type", &[("category", "basetype"), ("name", "VkBool32")]),
        Event::Other,
    ]);
    events.extend(elem_text("type", "uint32_t"));
    events.push(Event::EndTag); // </type>
    events.push(Event::EndTag); // </types>
    events.extend(extra);
    events.push(Event::EndTag); // </registry>
    events
}

// Round-trip: a struct with members a, b, c parses into a Struct entry whose
// member list is [a, b, c] in the original order.
#[test]
fn struct_members_roundtrip() {
    let mut body = vec![start("type", &[("category", "struct"), ("name", "X")])];
    for m in ["a", "b", "c"] {
        body.push(start("member", &[]));
        body.extend(elem_text("type", "uint32_t"));
        body.extend(elem_text("name", m));
        body.push(Event::EndTag);
    }
    body.push(Event::EndTag); // </type>
    let mut events = vec![start("registry", &[]), start("types", &[])];
    events.extend(body);
    events.push(Event::EndTag); // </types>
    events.push(Event::EndTag); // </registry>
    let reg = Registry::new(events, &RegistryFilter::keep_all()).unwrap();
    match reg.types.get("X") {
        Some(TypeInfo::Struct { name, members, extends }) => {
            assert_eq!(name, "X");
            assert!(extends.is_empty());
            let names: Vec<&str> = members.iter().map(|m| m.name.as_str()).collect();
            assert_eq!(names, vec!["a", "b", "c"]);
        },
        other => panic!("expected a struct entry, got {:?}", other),
    }
}

// Pointer/const-ness parsing: `const void* const*` gives [true, true],
// `void**` gives [false, false], a plain value type gives [].
#[test]
fn constness_chains() {
    assert_eq!(parse_constness("const void* const*"), vec![true, true]);
    assert_eq!(parse_constness("void**"), vec![false, false]);
    assert_eq!(parse_constness("uint32_t foo"), Vec::<bool>::new());
    // With the type name in a child element, only the declarator text stays.
    assert_eq!(parse_constness("const * const* "), vec![true, true]);
}

#[test]
fn member_with_pointer_chain() {
    let n = node("member", &[], vec![
        Content::Text("const ".to_string()),
        child_text("type", "void"),
        Content::Text("* const* ".to_string()),
        child_text("name", "pNext"),
    ]);
    let m = StructMember::parse_node(&n).unwrap();
    assert_eq!(m.name, "pNext");
    assert_eq!(m.ty.ty, "void");
    assert_eq!(m.ty.constness, vec![true, true]);
    assert!(!m.optional);
}

// Enum-extension arithmetic for extension number 73, offset 2:
// 1,000,000,000 + 72 * 1,000 + 2, and its negation when dir is "-".
#[test]
fn offset_strategy_arithmetic() {
    let st = EnumExtensionStrategy::Offset { offset: 2, negated: false };
    match st.resolve(Some(73)).unwrap() {
        EnumValue::Value(v) => assert_eq!(v, 1_000_072_002),
        other => panic!("unexpected value {:?}", other),
    }
    let neg = EnumExtensionStrategy::Offset { offset: 2, negated: true };
    match neg.resolve(Some(73)).unwrap() {
        EnumValue::Value(v) => assert_eq!(v, -1_000_072_002),
        other => panic!("unexpected value {:?}", other),
    }
    assert_eq!(enum_offset(73, 2), 1_000_072_002);
    assert_eq!(enum_offset(1, 0), 1_000_000_000);
}

// An Offset-strategy requirement of a feature (no extension number) fails.
#[test]
fn offset_strategy_rejected_for_features() {
    let st = EnumExtensionStrategy::Offset { offset: 2, negated: false };
    assert!(matches!(st.resolve(None), Err(ParseError::InvalidStrategyForEntity)));
}

// A bit position of 5 materialises as the literal integer 32.
#[test]
fn bitpos_materializes_as_mask() {
    assert_eq!(EnumValue::Bitpos(5).materialized(), Some(32));
    assert_eq!(EnumValue::Bitpos(0).materialized(), Some(1));
    assert_eq!(EnumValue::Value(-7).materialized(), Some(-7));
    assert_eq!(EnumValue::StrValue("VK_MAX".to_string()).materialized(), None);
}

// An enum-value declaration with neither `value` nor `bitpos` must fail; it
// never silently defaults to zero.
#[test]
fn enum_value_without_value_or_bitpos_fails() {
    let attrs = vec![attr("name", "VK_SOMETHING")];
    assert!(matches!(
        parse_enum_value(&attrs),
        Err(ParseError::MissingRequiredAttributeOrChild { .. })
    ));
}

#[test]
fn enum_value_forms() {
    assert!(matches!(
        parse_enum_value(&vec![attr("bitpos", "3")]),
        Ok(EnumValue::Bitpos(3))
    ));
    assert!(matches!(
        parse_enum_value(&vec![attr("value", "-42")]),
        Ok(EnumValue::Value(-42))
    ));
    match parse_enum_value(&vec![attr("value", "0x7FFFFFFF")]) {
        Ok(EnumValue::StrValue(s)) => assert_eq!(s, "0x7FFFFFFF"),
        other => panic!("unexpected {:?}", other),
    }
    assert!(matches!(
        parse_enum_value(&vec![attr("bitpos", "999")]),
        Err(ParseError::MalformedNumericLiteral { .. })
    ));
}

fn two_value_enums_block() -> Vec<Event> {
    vec![
        start("enums", &[("name", "VkThing"), ("type", "enum")]),
        start("enum", &[("name", "VK_THING_A"), ("value", "0")]),
        Event::EndTag,
        start("enum", &[("name", "VK_THING_B"), ("value", "1")]),
        Event::EndTag,
        Event::EndTag,
    ]
}

fn extension_block(extends: &str) -> Vec<Event> {
    vec![
        start("extensions", &[]),
        start("extension", &[
            ("name", "VK_EXT_thing"),
            ("number", "1"),
            ("type", "device"),
            ("supported", "vulkan"),
        ]),
        start("require", &[]),
        start("enum", &[("name", "VK_THING_C"), ("extends", extends), ("offset", "0")]),
        Event::EndTag,
        Event::EndTag, // </require>
        Event::EndTag, // </extension>
        Event::EndTag, // </extensions>
    ]
}

// Resolving a requirement whose `extends` names no known enum fails with
// UnknownEnumTarget and leaves every enum untouched.
#[test]
fn unknown_enum_target_leaves_registry_unchanged() {
    let mut extra = two_value_enums_block();
    extra.extend(extension_block("VkMissing"));
    let events = minimal_types_section(extra);
    let mut reg = Registry::new(events, &RegistryFilter::keep_all()).unwrap();
    let r = resolve_registry(&mut reg);
    match r {
        Err(ParseError::UnknownEnumTarget { extension, target }) => {
            assert_eq!(extension, "VK_EXT_thing");
            assert_eq!(target, "VkMissing");
        },
        other => panic!("unexpected {:?}", other),
    }
    // No partial mutation: the existing enum still holds its two values.
    let thing = reg.enums.get("VkThing").unwrap();
    assert_eq!(thing.values.len(), 2);
}

// End to end: one basetype, one two-valued enum, one extension adding a
// third value by Offset(0) under extension number 1; the resolved enum has
// three values and the third is 1,000,000,000.
#[test]
fn end_to_end_minimal_document() {
    let mut extra = two_value_enums_block();
    extra.extend(extension_block("VkThing"));
    let events = minimal_types_section(extra);
    let mut reg = Registry::new(events, &RegistryFilter::keep_all()).unwrap();
    assert!(matches!(reg.types.get("VkBool32"), Some(TypeInfo::Basetype { .. })));
    resolve_registry(&mut reg).unwrap();
    let thing = reg.enums.get("VkThing").unwrap();
    assert_eq!(thing.ty, EnumsType::Enum);
    assert_eq!(thing.values.len(), 3);
    assert_eq!(thing.values[2].0, "VK_THING_C");
    assert!(matches!(thing.values[2].1, EnumValue::Value(1_000_000_000)));
    assert_eq!(reg.extensions.len(), 1);
    assert_eq!(reg.extensions[0].name, "VK_EXT_thing");
    assert!(matches!(reg.extensions[0].ty, ExtensionType::Device { .. }));
}

#[test]
fn missing_types_section_fails() {
    let events = vec![start("registry", &[]), Event::EndTag];
    assert!(matches!(
        Registry::new(events, &RegistryFilter::keep_all()),
        Err(ParseError::MissingTypesSection)
    ));
}

#[test]
fn tokenizer_fault_propagates() {
    let events = vec![start("registry", &[]), Event::Fault("boom".to_string())];
    match Registry::new(events, &RegistryFilter::keep_all()) {
        Err(ParseError::MalformedSource(m)) => assert_eq!(m, "boom"),
        other => panic!("unexpected {:?}", other),
    }
}

#[test]
fn unknown_type_category_fails() {
    let extra = vec![];
    let mut events = vec![start("registry", &[]), start("types", &[])];
    events.push(start("type", &[("category", "wibble"), ("name", "T")]));
    events.push(Event::EndTag);
    events.push(Event::EndTag);
    events.extend(extra);
    events.push(Event::EndTag);
    match Registry::new(events, &RegistryFilter::keep_all()) {
        Err(ParseError::UnrecognizedCategory(c)) => assert_eq!(c, "wibble"),
        other => panic!("unexpected {:?}", other),
    }
}

#[test]
fn uncategorized_type_is_kept_raw() {
    let mut events = vec![start("registry", &[]), start("types", &[])];
    events.push(start("type", &[("name", "mystery"), ("requires", "somewhere")]));
    events.push(text("odd"));
    events.push(Event::EndTag);
    events.push(Event::EndTag);
    events.push(Event::EndTag);
    let reg = Registry::new(events, &RegistryFilter::keep_all()).unwrap();
    match reg.types.get("mystery") {
        Some(TypeInfo::Uncategorized { name, node }) => {
            assert_eq!(name, "mystery");
            assert_eq!(node.concat_text(), "odd");
        },
        other => panic!("unexpected {:?}", other),
    }
}

#[test]
fn handle_dispatchability() {
    let dispatchable = node("type", &[("category", "handle"), ("name", "VkDevice")], vec![
        child_text("type", "VK_DEFINE_HANDLE"),
    ]);
    match TypeInfo::from_node(dispatchable).unwrap() {
        TypeInfo::Handle { ty, parent, .. } => {
            assert_eq!(ty, HandleType::Normal);
            assert!(parent.is_none());
        },
        other => panic!("unexpected {:?}", other),
    }
    let non = node(
        "type",
        &[("category", "handle"), ("name", "VkFence"), ("parent", "VkDevice")],
        vec![child_text("type", "VK_DEFINE_NON_DISPATCHABLE_HANDLE")],
    );
    match TypeInfo::from_node(non).unwrap() {
        TypeInfo::Handle { ty, parent, .. } => {
            assert_eq!(ty, HandleType::NonDispatchable);
            assert_eq!(parent.as_deref(), Some("VkDevice"));
        },
        other => panic!("unexpected {:?}", other),
    }
}

#[test]
fn truncated_element_is_eof() {
    let mut c = Cursor::new(vec![start("member", &[]), text("dangling")]);
    let r = Node::parse(&mut c, "member".to_string(), vec![]);
    assert!(matches!(r, Err(ParseError::UnexpectedEOF)));
}

#[test]
fn node_lookups() {
    let n = node("thing", &[("k", "first"), ("k", "second"), ("other", "x")], vec![
        Content::Text("one ".to_string()),
        child_text("k", "from child"),
        Content::Comment("noise".to_string()),
        Content::Text("two".to_string()),
    ]);
    // Duplicate attribute names resolve first-wins.
    assert_eq!(n.get_attribute("k").unwrap(), "first");
    // Attribute-or-child prefers the attribute, falls back to child text.
    assert_eq!(n.get_attribute_or_child("k").unwrap(), "first");
    assert_eq!(n.get_attribute_or_child("other").unwrap(), "x");
    assert!(n.get_attribute_or_child("missing").is_none());
    assert_eq!(n.concat_text(), "one two");
    assert!(n.get_child("k").is_some());
    assert!(n.get_child("absent").is_none());
}

#[test]
fn command_node_parses() {
    let proto = Content::Child(node("proto", &[], vec![
        child_text("type", "VkResult"),
        child_text("name", "vkDoThing"),
    ]));
    let param = Content::Child(node("param", &[("optional", "true")], vec![
        Content::Text("const ".to_string()),
        child_text("type", "VkInfo"),
        Content::Text("* ".to_string()),
        child_text("name", "pInfo"),
    ]));
    let n = node(
        "command",
        &[
            ("queues", "graphics,compute"),
            ("successcodes", "VK_SUCCESS"),
            ("errorcodes", "VK_ERROR_ONE,VK_ERROR_TWO"),
            ("renderpass", "outside"),
            ("cmdbufferlevel", "secondary,primary"),
            ("pipeline", "graphics"),
        ],
        vec![proto, param],
    );
    let ci = CommandInfo::from_node(&n).unwrap();
    assert_eq!(ci.name, "vkDoThing");
    assert_eq!(ci.return_type.ty, "VkResult");
    assert_eq!(ci.queues, vec!["graphics", "compute"]);
    assert_eq!(ci.errorcodes.len(), 2);
    // Levels are deduplicated into declaration order: primary first.
    assert_eq!(
        ci.cmdbufferlevel.unwrap(),
        vec![CommandBufferLevel::Primary, CommandBufferLevel::Secondary]
    );
    assert_eq!(ci.params.len(), 1);
    assert_eq!(ci.params[0].name, "pInfo");
    assert!(ci.params[0].optional);
    assert_eq!(ci.params[0].ty.constness, vec![true]);
}

#[test]
fn command_bad_cmdbufferlevel_fails() {
    let proto = Content::Child(node("proto", &[], vec![
        child_text("type", "void"),
        child_text("name", "vkX"),
    ]));
    let n = node("command", &[("cmdbufferlevel", "primary,tertiary")], vec![proto]);
    match CommandInfo::from_node(&n) {
        Err(ParseError::UnrecognizedCategory(c)) => assert_eq!(c, "tertiary"),
        other => panic!("unexpected {:?}", other),
    }
}

#[test]
fn requirement_forms() {
    let r = Requirement::from_tag(&"type".to_string(), &vec![attr("name", "VkBool32")]).unwrap();
    assert!(matches!(r, Requirement::Type(n) if n == "VkBool32"));
    let r = Requirement::from_tag(&"command".to_string(), &vec![attr("name", "vkFoo")]).unwrap();
    assert!(matches!(r, Requirement::Command(n) if n == "vkFoo"));
    let r = Requirement::from_tag(&"enum".to_string(), &vec![attr("name", "VK_A")]).unwrap();
    assert!(matches!(r, Requirement::Enum(n) if n == "VK_A"));
    let r = Requirement::from_tag(
        &"enum".to_string(),
        &vec![attr("name", "VK_B"), attr("bitpos", "4"), attr("type", "VkFlags")],
    )
    .unwrap();
    assert!(matches!(
        r,
        Requirement::Constant { value: EnumValue::Bitpos(4), ty: Some(t), .. } if t == "VkFlags"
    ));
    let r = Requirement::from_tag(
        &"enum".to_string(),
        &vec![
            attr("name", "VK_C"),
            attr("extends", "VkThing"),
            attr("offset", "7"),
            attr("dir", "-"),
        ],
    )
    .unwrap();
    match r {
        Requirement::EnumExtension { name, extends, value } => {
            assert_eq!(name, "VK_C");
            assert_eq!(extends, "VkThing");
            assert!(matches!(
                value,
                EnumExtensionStrategy::Offset { offset: 7, negated: true }
            ));
        },
        other => panic!("unexpected {:?}", other),
    }
}

#[test]
fn feature_missing_attribute_fails() {
    // A feature element with no attributes: its scope is just the close tag.
    let mut c = Cursor::new(vec![Event::EndTag]);
    let r = FeatureInfo::parse_from(&mut c, &vec![attr("name", "VK_VERSION_1_0")]);
    match r {
        Err(ParseError::MissingRequiredAttributeOrChild { element, field }) => {
            assert_eq!(element, "feature");
            assert_eq!(field, "api");
        },
        other => panic!("unexpected {:?}", other),
    }
}

#[test]
fn feature_parses_with_requirements() {
    let events = vec![
        start("require", &[]),
        start("type", &[("name", "VkBool32")]),
        Event::EndTag,
        Event::EndTag,
        Event::EndTag, // </feature>
    ];
    let mut c = Cursor::new(events);
    let f = FeatureInfo::parse_from(
        &mut c,
        &vec![attr("name", "VK_VERSION_1_0"), attr("api", "vulkan"), attr("number", "1.0")],
    )
    .unwrap();
    assert_eq!(f.name, "VK_VERSION_1_0");
    assert_eq!(f.api, "vulkan");
    assert_eq!(f.number, "1.0");
    assert_eq!(f.requirements.len(), 1);
}

// A `supported` pattern that does not compile as a matcher is rejected:
// this would pass if the compilation check ignored its argument.
#[test]
fn extension_bad_supported_pattern_fails() {
    let mut c = Cursor::new(vec![Event::EndTag]);
    let r = ExtensionInfo::parse_from(
        &mut c,
        &vec![
            attr("name", "VK_EXT_broken"),
            attr("number", "9"),
            attr("type", "instance"),
            attr("supported", "(unclosed"),
        ],
    );
    match r {
        Err(ParseError::MalformedPattern(p)) => assert_eq!(p, "(unclosed"),
        other => panic!("unexpected {:?}", other),
    }
}

#[test]
fn extension_parses_disabled_and_typed() {
    let mut c = Cursor::new(vec![Event::EndTag]);
    let x = ExtensionInfo::parse_from(
        &mut c,
        &vec![attr("name", "VK_EXT_off"), attr("number", "12")],
    )
    .unwrap();
    assert!(matches!(x.ty, ExtensionType::Disabled));
    assert_eq!(x.number, 12);
    let mut c = Cursor::new(vec![Event::EndTag]);
    let x = ExtensionInfo::parse_from(
        &mut c,
        &vec![
            attr("name", "VK_KHR_surface"),
            attr("number", "1"),
            attr("type", "instance"),
            attr("supported", "vulkan"),
            attr("requires", "VK_KHR_base,VK_KHR_other"),
            attr("protect", "VK_USE_PLATFORM_WIN32_KHR"),
        ],
    )
    .unwrap();
    assert!(matches!(x.ty, ExtensionType::Instance { supported } if supported == "vulkan"));
    assert_eq!(x.requires, vec!["VK_KHR_base", "VK_KHR_other"]);
    assert_eq!(x.protect.as_deref(), Some("VK_USE_PLATFORM_WIN32_KHR"));
}

// A filtered-out extension is still parsed in full: a malformed one aborts
// the build even when the filter would drop it.
#[test]
fn filtered_extension_still_validated() {
    let mut extra = two_value_enums_block();
    extra.extend(vec![
        start("extensions", &[]),
        start("extension", &[("name", "VK_EXT_bad"), ("number", "zzz")]),
        Event::EndTag,
        Event::EndTag,
    ]);
    let events = minimal_types_section(extra);
    let filter = RegistryFilter { features: None, extensions: Some(vec![]) };
    assert!(matches!(
        Registry::new(events, &filter),
        Err(ParseError::MalformedNumericLiteral { .. })
    ));
}

#[test]
fn extension_filter_drops_entities() {
    let mut extra = two_value_enums_block();
    extra.extend(extension_block("VkThing"));
    let events = minimal_types_section(extra);
    let filter = RegistryFilter { features: None, extensions: Some(vec![]) };
    let reg = Registry::new(events, &filter).unwrap();
    assert_eq!(reg.extensions.len(), 0);
}

#[test]
fn enums_block_discarded_without_type() {
    let extra = vec![
        start("enums", &[("name", "API constants")]),
        start("enum", &[("name", "VK_MAX"), ("value", "256")]),
        Event::EndTag,
        Event::EndTag,
    ];
    let events = minimal_types_section(extra);
    let reg = Registry::new(events, &RegistryFilter::keep_all()).unwrap();
    assert!(reg.enums.get("API constants").is_none());
    assert_eq!(reg.enums.len(), 0);
}

#[test]
fn enums_block_unknown_type_fails() {
    let extra = vec![
        start("enums", &[("name", "VkOdd"), ("type", "constants")]),
        Event::EndTag,
    ];
    let events = minimal_types_section(extra);
    match Registry::new(events, &RegistryFilter::keep_all()) {
        Err(ParseError::UnrecognizedCategory(c)) => assert_eq!(c, "constants"),
        other => panic!("unexpected {:?}", other),
    }
}

#[test]
fn bitmask_enums_block() {
    let extra = vec![
        start("enums", &[("name", "VkCullModeFlagBits"), ("type", "bitmask")]),
        start("enum", &[("name", "VK_CULL_MODE_FRONT_BIT"), ("bitpos", "0")]),
        Event::EndTag,
        start("enum", &[("name", "VK_CULL_MODE_BACK_BIT"), ("bitpos", "1")]),
        Event::EndTag,
        Event::EndTag,
    ];
    let events = minimal_types_section(extra);
    let reg = Registry::new(events, &RegistryFilter::keep_all()).unwrap();
    let bm = reg.enums.get("VkCullModeFlagBits").unwrap();
    assert_eq!(bm.ty, EnumsType::Bitmask);
    assert!(matches!(bm.values[0].1, EnumValue::Bitpos(0)));
    assert_eq!(bm.values[0].1.materialized(), Some(1));
    assert_eq!(bm.values[1].1.materialized(), Some(2));
}

#[test]
fn feature_offset_requirement_fails_to_resolve() {
    let mut extra = two_value_enums_block();
    extra.extend(vec![
        start("feature", &[("name", "VK_VERSION_1_1"), ("api", "vulkan"), ("number", "1.1")]),
        start("require", &[]),
        start("enum", &[("name", "VK_THING_C"), ("extends", "VkThing"), ("offset", "0")]),
        Event::EndTag,
        Event::EndTag,
        Event::EndTag,
    ]);
    let events = minimal_types_section(extra);
    let mut reg = Registry::new(events, &RegistryFilter::keep_all()).unwrap();
    assert_eq!(reg.features.len(), 1);
    assert!(matches!(
        resolve_registry(&mut reg),
        Err(ParseError::InvalidStrategyForEntity)
    ));
    // And the enum was not touched.
    assert_eq!(reg.enums.get("VkThing").unwrap().values.len(), 2);
}

#[test]
fn protect_feature_name() {
    let mut c = Cursor::new(vec![Event::EndTag]);
    let x = ExtensionInfo::parse_from(
        &mut c,
        &vec![
            attr("name", "VK_KHR_win32_surface"),
            attr("number", "10"),
            attr("protect", "VK_USE_PLATFORM_WIN32_KHR"),
        ],
    )
    .unwrap();
    assert_eq!(x.feature_name().as_deref(), Some("PLATFORM_WIN32_KHR"));
    let mut c = Cursor::new(vec![Event::EndTag]);
    let y = ExtensionInfo::parse_from(
        &mut c,
        &vec![
            attr("name", "VK_EXT_debug"),
            attr("number", "11"),
            attr("protect", "SOMETHING_ELSE"),
        ],
    )
    .unwrap();
    assert_eq!(y.feature_name(), None);
    assert_eq!(
        ExtensionInfo::parse_dependencies("VK_KHR_a,VK_KHR_b"),
        vec!["VK_KHR_a", "VK_KHR_b"]
    );
}

#[test]
fn feature_filter_drops_entities() {
    fn feature_block() -> Vec<Event> {
        vec![
            start("feature", &[("name", "VK_VERSION_1_0"), ("api", "vulkan"), ("number", "1.0")]),
            Event::EndTag,
        ]
    }
    let events = minimal_types_section(feature_block());
    let keep = RegistryFilter { features: Some(vec!["VK_VERSION_1_0".to_string()]), extensions: None };
    let reg = Registry::new(events, &keep).unwrap();
    assert_eq!(reg.features.len(), 1);
    let events = minimal_types_section(feature_block());
    let drop_all = RegistryFilter { features: Some(vec![]), extensions: None };
    let reg = Registry::new(events, &drop_all).unwrap();
    assert_eq!(reg.features.len(), 0);
}

#[test]
fn parse_next_feature_scans_raw_stream() {
    let events = vec![
        Event::Other,
        text("noise"),
        start("feature", &[("name", "VK_VERSION_1_0"), ("api", "vulkan"), ("number", "1.0")]),
        Event::EndTag,
    ];
    let mut c = Cursor::new(events);
    let f = FeatureInfo::parse_next_feature(&mut c).unwrap().unwrap();
    assert_eq!(f.name, "VK_VERSION_1_0");
    assert!(FeatureInfo::parse_next_feature(&mut c).is_none());
}

#[test]
fn parse_next_type_skips_unrelated_siblings() {
    let events = vec![
        start("comment", &[]),
        text("irrelevant"),
        Event::EndTag,
        start("type", &[("category", "include"), ("name", "vk_platform")]),
        Event::EndTag,
        Event::EndTag, // closes the surrounding types section
    ];
    let mut c = Cursor::new(events);
    let mut s = XmlContents::new_inside();
    let t = TypeInfo::parse_next_type(&mut s, &mut c).unwrap().unwrap();
    assert!(matches!(t, TypeInfo::Include(n) if n == "vk_platform"));
    assert!(TypeInfo::parse_next_type(&mut s, &mut c).is_none());
}

#[test]
fn integer_parsing() {
    assert_eq!(parse_isize("42"), Some(42));
    assert_eq!(parse_isize("+42"), Some(42));
    assert_eq!(parse_isize("-42"), Some(-42));
    assert_eq!(parse_isize(""), None);
    assert_eq!(parse_isize("12x"), None);
    assert_eq!(parse_isize("-"), None);
    assert_eq!(parse_isize("99999999999999999999999999999999999"), None);
    assert_eq!(parse_u8("0"), Some(0));
    assert_eq!(parse_u8("255"), Some(255));
    assert_eq!(parse_u8("256"), None);
    assert_eq!(parse_u8("-1"), None);
    assert_eq!(parse_bool("true"), Some(true));
    assert_eq!(parse_bool("false"), Some(false));
    assert_eq!(parse_bool("yes"), None);
}

#[test]
fn csv_splitting() {
    assert_eq!(split_csv("a,b"), vec!["a", "b"]);
    assert_eq!(split_csv(""), vec![""]);
    assert_eq!(split_csv(",x,"), vec!["", "x", ""]);
    assert_eq!(split_csv("one"), vec!["one"]);
}

#[test]
fn string_equality() {
    assert!(str_eq("abc", "abc"));
    assert!(!str_eq("abc", "abd"));
    assert!(!str_eq("abc", "ab"));
    assert!(str_eq("", ""));
}

#[test]
fn typeref_describe() {
    let t = TyperefInfo { ty: "void".to_string(), constness: vec![true, false] };
    assert_eq!(t.describe(), "*const *mut void");
    let plain = TyperefInfo { ty: "uint32_t".to_string(), constness: vec![] };
    assert_eq!(plain.describe(), "uint32_t");
}

#[test]
fn private_member_detection() {
    let count = StructMember {
        name: "count".to_string(),
        ty: TyperefInfo { ty: "uint32_t".to_string(), constness: vec![] },
        values: None,
        externsync: false,
        len: None,
        altlen: None,
        optional: false,
        noautovalidity: false,
    };
    let items = StructMember {
        name: "pItems".to_string(),
        ty: TyperefInfo { ty: "VkItem".to_string(), constness: vec![true] },
        values: None,
        externsync: false,
        len: Some("count".to_string()),
        altlen: None,
        optional: false,
        noautovalidity: false,
    };
    let plain = StructMember {
        name: "flags".to_string(),
        ty: TyperefInfo { ty: "VkFlags".to_string(), constness: vec![] },
        values: None,
        externsync: false,
        len: None,
        altlen: None,
        optional: false,
        noautovalidity: false,
    };
    let members = vec![count, items, plain];
    // `count` is named by `pItems`'s len attribute.
    assert!(is_private_member(&members, 0));
    // `pItems` is a pointer governed by a length.
    assert!(is_private_member(&members, 1));
    assert!(!is_private_member(&members, 2));
}

#[test]
fn name_map_last_wins() {
    let mut m: NameMap<EnumsInfo> = NameMap::new();
    m.insert("k".to_string(), EnumsInfo {
        name: "k".to_string(),
        ty: EnumsType::Enum,
        values: vec![],
    });
    m.insert("k".to_string(), EnumsInfo {
        name: "k".to_string(),
        ty: EnumsType::Bitmask,
        values: vec![],
    });
    assert_eq!(m.len(), 1);
    assert_eq!(m.get("k").unwrap().ty, EnumsType::Bitmask);
    assert!(m.get("other").is_none());
}

#[derive(Clone, Copy)]
struct CullMode;

#[test]
fn flag_words() {
    let front: Flags<CullMode, u32> = Flags::new(0b01);
    let back: Flags<CullMode, u32> = Flags::new(0b10);
    let both = front.union(back);
    assert_eq!(both.get(), 0b11);
    assert!(front.intersects(both));
    assert!(!front.intersects(back));
    assert!(front.subset(both));
    assert_eq!(front.intersection(both).get(), 0b01);
}

#[derive(Clone, Copy)]
struct FenceTag;

#[test]
fn null_handle_is_zero() {
    let h: NondispatchableHandle<FenceTag> = NullableHandle::null();
    assert_eq!(h.get(), 0);
    let other: NondispatchableHandle<FenceTag> = NondispatchableHandle::from_raw(7);
    assert_eq!(other.get(), 7);
}
