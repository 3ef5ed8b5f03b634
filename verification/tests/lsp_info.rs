use dashmap::DashMap;
use pax_carbon::lsp::info::{
    definition_id_of, enrich_info, hover_id_of, is_common_property, record_enrichment,
    resolve_info,
};
use pax_carbon::lsp::model::{
    EnrichResult, IdentifierInfo, IdentifierMap, IdentifierType, Info,
    InfoRequest, MethodInfo, NodeType, PaxComponent, Position, PropertyInfo, VariantInfo,
};

fn info(path: &str, line: u32) -> Info {
    Info {
        path: path.to_string(),
        position: Position { line, character: 0 },
        definition_id: None,
        hover_id: None,
    }
}

fn item(ty: IdentifierType, name: &str, line: u32) -> IdentifierInfo {
    IdentifierInfo {
        ty,
        identifier: name.to_string(),
        info: info("lib.rs", line),
        properties: vec![],
        methods: vec![],
        variants: vec![],
    }
}

fn component() -> PaxComponent {
    let mut hello = item(IdentifierType::Component, "Hello", 1);
    hello.methods.push(MethodInfo { identifier: "increment".to_string(), info: info("lib.rs", 10) });
    hello.properties.push(PropertyInfo {
        identifier: "count".to_string(),
        rust_type: "usize".to_string(),
        info: info("lib.rs", 5),
    });
    let mut common = item(IdentifierType::PaxType, "CommonProperties", 100);
    common.properties.push(PropertyInfo {
        identifier: "width".to_string(),
        rust_type: "Size".to_string(),
        info: info("common.rs", 7),
    });
    let mut color = item(IdentifierType::Enum, "Color", 20);
    color.variants.push(VariantInfo { identifier: "RED".to_string(), info: info("color.rs", 3) });
    color.methods.push(MethodInfo { identifier: "rgb".to_string(), info: info("color.rs", 30) });
    let mut rect = item(IdentifierType::Component, "Rectangle", 40);
    rect.properties.push(PropertyInfo {
        identifier: "fill".to_string(),
        rust_type: "Color".to_string(),
        info: info("rect.rs", 4),
    });
    let identifier_map: IdentifierMap = DashMap::new();
    for v in vec![hello, common, color, rect]
    {
        identifier_map.insert(v.identifier.clone(), v);
    }
    PaxComponent { component_name: "Hello".to_string(), identifier_map }
}

fn ident(s: &str) -> Option<NodeType> {
    Some(NodeType::Identifier { identifier: s.to_string() })
}

fn tag(s: &str) -> Option<NodeType> {
    Some(NodeType::Tag { pascal_identifier: s.to_string() })
}

fn line_of(i: Option<Info>) -> Option<(String, u32)> {
    i.map(|i| (i.path, i.position.line))
}

#[test]
fn identifier_resolves_to_its_item() {
    let mut c = component();
    let r = resolve_info(&mut c, &ident("Color"), &None, &ident("Color"));
    assert_eq!(line_of(r), Some(("lib.rs".to_string(), 20)));
    assert!(resolve_info(&mut c, &ident("Nope"), &None, &ident("Nope")).is_none());
}

#[test]
fn nothing_resolves_without_priority_node_or_identifier() {
    let mut c = component();
    assert!(resolve_info(&mut c, &None, &None, &ident("Color")).is_none());
    assert!(resolve_info(&mut c, &ident("Color"), &None, &None).is_none());
    assert!(resolve_info(&mut c, &ident("Color"), &None, &tag("Color")).is_none());
    assert!(resolve_info(&mut c, &Some(NodeType::Other), &None, &ident("Color")).is_none());
}

#[test]
fn literal_function_resolves_to_component_method() {
    let mut c = component();
    let node = Some(NodeType::LiteralFunction { function_name: "increment".to_string() });
    assert_eq!(line_of(resolve_info(&mut c, &node, &None, &ident("increment"))), Some(("lib.rs".to_string(), 10)));
    let node = Some(NodeType::LiteralFunction { function_name: "missing".to_string() });
    assert!(resolve_info(&mut c, &node, &None, &ident("missing")).is_none());
}

#[test]
fn enum_value_resolves_to_enum_or_variant() {
    let mut c = component();
    let node = Some(NodeType::LiteralEnumValue {
        enum_name: "Color".to_string(),
        property_name: "RED".to_string(),
    });
    assert_eq!(line_of(resolve_info(&mut c, &node, &None, &ident("Color"))), Some(("lib.rs".to_string(), 20)));
    assert_eq!(line_of(resolve_info(&mut c, &node, &None, &ident("RED"))), Some(("color.rs".to_string(), 3)));
    let node = Some(NodeType::LiteralEnumValue {
        enum_name: "Self".to_string(),
        property_name: "increment".to_string(),
    });
    assert!(resolve_info(&mut c, &node, &None, &ident("increment")).is_none());
    assert_eq!(line_of(resolve_info(&mut c, &node, &None, &ident("Self"))), Some(("lib.rs".to_string(), 1)));
}

#[test]
fn function_call_resolves_to_struct_or_method() {
    let mut c = component();
    let node = Some(NodeType::XoFunctionCall {
        struct_name: "Color".to_string(),
        function_name: "rgb".to_string(),
    });
    assert_eq!(line_of(resolve_info(&mut c, &node, &None, &ident("rgb"))), Some(("color.rs".to_string(), 30)));
    assert_eq!(line_of(resolve_info(&mut c, &node, &None, &ident("Color"))), Some(("lib.rs".to_string(), 20)));
    let node = Some(NodeType::XoFunctionCall {
        struct_name: "Self".to_string(),
        function_name: "increment".to_string(),
    });
    assert!(resolve_info(&mut c, &node, &None, &ident("increment")).is_none());
}

#[test]
fn attribute_resolves_to_property_of_element_or_common() {
    let mut c = component();
    let node = Some(NodeType::AttributeKeyValuePair { identifier: "fill".to_string() });
    assert_eq!(line_of(resolve_info(&mut c, &node, &tag("Rectangle"), &ident("fill"))), Some(("rect.rs".to_string(), 4)));
    assert!(resolve_info(&mut c, &node, &None, &ident("fill")).is_none());
    let node = Some(NodeType::AttributeKeyValuePair { identifier: "width".to_string() });
    assert_eq!(line_of(resolve_info(&mut c, &node, &tag("Rectangle"), &ident("width"))), Some(("common.rs".to_string(), 7)));
    assert!(is_common_property(&"anchor_y".to_string()));
    assert!(!is_common_property(&"fill".to_string()));
}

#[test]
fn hover_and_definition_ids_are_truncated_to_32_bits() {
    let mut i = info("a", 0);
    assert_eq!(hover_id_of(&Some(i.clone())), None);
    i.hover_id = Some(12);
    i.definition_id = Some(34);
    assert_eq!(hover_id_of(&Some(i.clone())), Some(12));
    assert_eq!(definition_id_of(&Some(i.clone())), Some(34));
    assert_eq!(definition_id_of(&None), None);
    i.hover_id = Some((1usize << 32) + 5);
    assert_eq!(hover_id_of(&Some(i)), Some(5));
}

#[test]
fn enrich_info_records_the_answer() {
    let i = info("x.rs", 3);
    let e = enrich_info(&i, &Some(EnrichResult { getDefinition: 8, getHover: 9 }));
    assert_eq!(e.definition_id, Some(8));
    assert_eq!(e.hover_id, Some(9));
    assert_eq!(e.path, "x.rs");
    let e = enrich_info(&i, &None);
    assert_eq!(e.definition_id, None);
    assert_eq!(e.hover_id, None);
}

fn request(ty: IdentifierType, name: &str, owner: Option<&str>) -> InfoRequest {
    InfoRequest {
        identifier: name.to_string(),
        owner_identifier: owner.map(|o| o.to_string()),
        identifier_type: ty,
        info: info("found.rs", 77),
    }
}

#[test]
fn recorded_item_answer_is_what_hover_resolves_to() {
    let mut c = component();
    let answer = Some(EnrichResult { getDefinition: 1, getHover: 2 });
    record_enrichment(&mut c.identifier_map, &request(IdentifierType::Enum, "Color", None), &answer);
    let r = resolve_info(&mut c, &ident("Color"), &None, &ident("Color")).unwrap();
    assert_eq!(r.path, "found.rs");
    assert_eq!(r.hover_id, Some(2));
    assert_eq!(hover_id_of(&Some(r.clone())), Some(2));
    assert_eq!(definition_id_of(&Some(r)), Some(1));
}

#[test]
fn recorded_member_answers_are_what_hover_resolves_to() {
    let mut c = component();
    let answer = Some(EnrichResult { getDefinition: 3, getHover: 4 });
    record_enrichment(&mut c.identifier_map, &request(IdentifierType::Property, "fill", Some("Rectangle")), &answer);
    record_enrichment(&mut c.identifier_map, &request(IdentifierType::Method, "rgb", Some("Color")), &answer);
    record_enrichment(&mut c.identifier_map, &request(IdentifierType::EnumVariant, "RED", Some("Color")), &answer);
    let node = Some(NodeType::AttributeKeyValuePair { identifier: "fill".to_string() });
    let r = resolve_info(&mut c, &node, &tag("Rectangle"), &ident("fill")).unwrap();
    assert_eq!((r.path.as_str(), r.hover_id), ("found.rs", Some(4)));
    let node = Some(NodeType::XoFunctionCall { struct_name: "Color".to_string(), function_name: "rgb".to_string() });
    let r = resolve_info(&mut c, &node, &None, &ident("rgb")).unwrap();
    assert_eq!((r.path.as_str(), r.definition_id), ("found.rs", Some(3)));
    let node = Some(NodeType::LiteralEnumValue { enum_name: "Color".to_string(), property_name: "RED".to_string() });
    let r = resolve_info(&mut c, &node, &None, &ident("RED")).unwrap();
    assert_eq!(r.path, "found.rs");
    // the enum itself is left as it was
    let r = resolve_info(&mut c, &ident("Color"), &None, &ident("Color")).unwrap();
    assert_eq!(r.path, "lib.rs");
}

#[test]
fn answers_about_unknown_items_change_nothing() {
    let mut c = component();
    let answer = Some(EnrichResult { getDefinition: 3, getHover: 4 });
    record_enrichment(&mut c.identifier_map, &request(IdentifierType::Component, "Ghost", None), &answer);
    record_enrichment(&mut c.identifier_map, &request(IdentifierType::Property, "nope", Some("Rectangle")), &answer);
    record_enrichment(&mut c.identifier_map, &request(IdentifierType::Method, "x", Some("Nobody")), &answer);
    assert_eq!(c.identifier_map.len(), 4);
    let node = Some(NodeType::AttributeKeyValuePair { identifier: "fill".to_string() });
    let r = resolve_info(&mut c, &node, &tag("Rectangle"), &ident("fill")).unwrap();
    assert_eq!(r.path, "rect.rs");
    assert_eq!(r.hover_id, None);
}
