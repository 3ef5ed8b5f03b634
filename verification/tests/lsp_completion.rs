use dashmap::DashMap;
use pax_carbon::lsp::completion::{
    completion, plain_completion, CompletionChoice, CompletionContext, ItemKind,
};
use pax_carbon::lsp::model::{
    IdentifierInfo, IdentifierMap, IdentifierType, Info, MethodInfo, NodeType,
    PaxComponent, Position, PropertyInfo,
};

fn info() -> Info {
    Info { path: "lib.rs".to_string(), position: Position { line: 0, character: 0 }, definition_id: None, hover_id: None }
}

fn item(ty: IdentifierType, name: &str) -> IdentifierInfo {
    IdentifierInfo { ty, identifier: name.to_string(), info: info(), properties: vec![], methods: vec![], variants: vec![] }
}

fn prop(name: &str, ty: &str) -> PropertyInfo {
    PropertyInfo { identifier: name.to_string(), rust_type: ty.to_string(), info: info() }
}

fn component() -> PaxComponent {
    let mut hello = item(IdentifierType::Component, "Hello");
    hello.methods.push(MethodInfo { identifier: "increment".to_string(), info: info() });
    hello.methods.push(MethodInfo { identifier: "reset".to_string(), info: info() });
    let mut rect = item(IdentifierType::Component, "Rectangle");
    rect.properties.push(prop("fill", "Color"));
    rect.properties.push(prop("corner_radii", "RectangleCornerRadii"));
    let mut common = item(IdentifierType::PaxType, "CommonProperties");
    common.properties.push(prop("x", "Size"));
    common.properties.push(prop("fill", "Fill"));
    let text = item(IdentifierType::Component, "Text");
    let color = item(IdentifierType::Enum, "Color");
    let identifier_map: IdentifierMap = DashMap::new();
    for v in vec![hello, rect, common, text, color]
    {
        identifier_map.insert(v.identifier.clone(), v);
    }
    PaxComponent { component_name: "Hello".to_string(), identifier_map }
}

fn ctx(trigger: Option<&str>, word: Option<&str>, prior: Option<char>, tag: Option<&str>, error: bool) -> CompletionContext {
    CompletionContext {
        trigger_character: trigger.map(|s| s.to_string()),
        prior_word: word.map(|s| s.to_string()),
        prior_character: prior,
        tag_node: tag.map(|s| NodeType::Tag { pascal_identifier: s.to_string() }),
        has_attribute_error: error,
    }
}

fn names(r: &[CompletionChoice]) -> Vec<String> {
    r.iter()
        .map(|c| match c {
            CompletionChoice::Component { name } => format!("component {}", name),
            CompletionChoice::EventHandlers => "events".to_string(),
            CompletionChoice::SettingsBlock => "settings".to_string(),
            CompletionChoice::HandlersBlock => "handlers".to_string(),
            CompletionChoice::Method { name } => format!("method {}", name),
            CompletionChoice::PropertyType { rust_type } => format!("type {}", rust_type),
            CompletionChoice::Property { name } => format!("property {}", name),
        })
        .collect()
}

#[test]
fn open_angle_offers_other_components() {
    let r = completion(&mut component(), &ctx(Some("<"), None, None, None, false));
    let mut found = names(&r);
    found.sort();
    assert_eq!(found, vec!["component Rectangle", "component Text"]);
}

#[test]
fn at_sign_offers_events_inside_a_tag_and_blocks_outside() {
    let r = completion(&mut component(), &ctx(Some("@"), None, None, Some("Rectangle"), false));
    assert_eq!(names(&r), vec!["events"]);
    let r = completion(&mut component(), &ctx(Some("@"), None, None, None, false));
    assert_eq!(names(&r), vec!["settings", "handlers"]);
}

#[test]
fn equals_after_handler_offers_methods() {
    let r = completion(&mut component(), &ctx(Some("="), Some("@click"), None, None, false));
    assert_eq!(names(&r), vec!["method increment", "method reset"]);
}

#[test]
fn equals_after_attribute_offers_its_value_types() {
    let r = completion(&mut component(), &ctx(Some("="), Some("fill="), None, Some("Rectangle"), false));
    assert_eq!(names(&r), vec!["type Color", "type Fill"]);
    let r = completion(&mut component(), &ctx(Some("="), Some("x"), None, Some("Rectangle"), false));
    assert_eq!(names(&r), vec!["type Size"]);
    let r = completion(&mut component(), &ctx(Some("="), Some("fill"), None, None, false));
    assert!(r.is_empty());
    let r = completion(&mut component(), &ctx(Some("="), None, None, Some("Rectangle"), false));
    assert!(r.is_empty());
}

#[test]
fn other_triggers_offer_nothing() {
    let r = completion(&mut component(), &ctx(Some("."), Some("fill"), None, Some("Rectangle"), false));
    assert!(r.is_empty());
}

#[test]
fn inside_a_tag_attributes_are_offered() {
    let r = completion(&mut component(), &ctx(None, Some("<Rectangle"), Some(' '), Some("Rectangle"), false));
    assert_eq!(
        names(&r),
        vec!["property fill", "property corner_radii", "property x", "property fill"]
    );
    let r = completion(&mut component(), &ctx(None, Some("<Rectangle"), Some(' '), Some("Rectangle"), true));
    assert!(r.is_empty());
    let r = completion(&mut component(), &ctx(None, Some("x"), Some(' '), None, false));
    assert!(r.is_empty());
}

#[test]
fn after_an_equals_inside_a_tag_values_come_before_attributes() {
    let r = completion(&mut component(), &ctx(None, Some("fill="), Some('='), Some("Rectangle"), false));
    assert_eq!(
        names(&r),
        vec!["type Color", "type Fill", "property fill", "property corner_radii", "property x", "property fill"]
    );
    let r = completion(&mut component(), &ctx(None, Some("@click="), Some('='), Some("Text"), true));
    assert_eq!(names(&r), vec!["method increment", "method reset"]);
}

fn plain(c: CompletionChoice) -> Option<(String, String, ItemKind, String, bool)> {
    plain_completion(&c).map(|p| (p.label, p.detail, p.kind, p.insert_text, p.snippet))
}

#[test]
fn each_choice_becomes_its_own_completion_item() {
    assert_eq!(
        plain(CompletionChoice::Component { name: "Rectangle".to_string() }),
        Some(("Rectangle".to_string(), String::new(), ItemKind::Class, "Rectangle $0 />".to_string(), true))
    );
    assert_eq!(
        plain(CompletionChoice::SettingsBlock),
        Some((
            "settings".to_string(),
            "Define classes and id selectors".to_string(),
            ItemKind::Class,
            "settings {\n\t $0 \n}".to_string(),
            true
        ))
    );
    assert_eq!(
        plain(CompletionChoice::HandlersBlock),
        Some((
            "handlers".to_string(),
            "Define root component event handlers".to_string(),
            ItemKind::Class,
            "handlers {\n\t $0 \n}".to_string(),
            true
        ))
    );
    assert_eq!(
        plain(CompletionChoice::Method { name: "increment".to_string() }),
        Some(("increment".to_string(), "increment".to_string(), ItemKind::Method, "increment".to_string(), false))
    );
    assert_eq!(
        plain(CompletionChoice::Property { name: "fill".to_string() }),
        Some(("fill".to_string(), "fill".to_string(), ItemKind::Field, "fill=".to_string(), false))
    );
    assert_eq!(plain(CompletionChoice::EventHandlers), None);
    assert_eq!(plain(CompletionChoice::PropertyType { rust_type: "Color".to_string() }), None);
}
