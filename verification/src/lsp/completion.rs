//! Which completions the server offers at the cursor.

use vstd::prelude::*;
use crate::lsp::model::{
    find_named, first_named, first_named_from, identifier_map_contents, is_listing_of, lookup,
    map_entries, map_get, IdentifierInfo, IdentifierMap, IdentifierType, MethodInfo, NodeType,
    PaxComponent, PropertyInfo,
};
use crate::lsp::text::{contains_char, equals_without_char, without_char};

verus! {

/// One entry, or group of entries, of a completion list. The editor's items
/// are made from these: a component's prepared element snippet where the
/// server has one, else a plain `<Name $0 />` snippet; the event handler
/// completions; the `settings` and `handlers` block snippets; a method name;
/// the value completions of a Rust type (whose name the server also logs);
/// an attribute `name=`.
pub enum CompletionChoice {
    Component { name: String },
    EventHandlers,
    SettingsBlock,
    HandlersBlock,
    Method { name: String },
    PropertyType { rust_type: String },
    Property { name: String },
}

/// The kind of a completion item, as the editor shows it.
#[derive(Clone, Copy, Debug, PartialEq, Eq, Structural)]
pub enum ItemKind {
    Class,
    Method,
    Field,
}

/// A completion item that the server writes itself: its label, its detail,
/// its kind, the text it inserts, and whether that text is a snippet (with a
/// `$0` placeholder for the cursor).
pub struct PlainCompletion {
    pub label: String,
    pub detail: String,
    pub kind: ItemKind,
    pub insert_text: String,
    pub snippet: bool,
}

/// `p` is the item that the server writes itself for `choice`: a plain
/// `<Name $0 />` snippet for a component tag, the `settings` and `handlers`
/// block snippets, a method's name, and an attribute's `name=`.
pub open spec fn is_plain_completion_of(p: PlainCompletion, choice: CompletionChoice) -> bool {
    match choice {
        CompletionChoice::Component { name } => {
            &&& p.label@ == name@
            &&& p.detail@ == ""@
            &&& p.kind == ItemKind::Class
            &&& p.insert_text@ == name@ + " $0 />"@
            &&& p.snippet
        },
        CompletionChoice::SettingsBlock => {
            &&& p.label@ == "settings"@
            &&& p.detail@ == "Define classes and id selectors"@
            &&& p.kind == ItemKind::Class
            &&& p.insert_text@ == "settings {\n\t $0 \n}"@
            &&& p.snippet
        },
        CompletionChoice::HandlersBlock => {
            &&& p.label@ == "handlers"@
            &&& p.detail@ == "Define root component event handlers"@
            &&& p.kind == ItemKind::Class
            &&& p.insert_text@ == "handlers {\n\t $0 \n}"@
            &&& p.snippet
        },
        CompletionChoice::Method { name } => {
            &&& p.label@ == name@
            &&& p.detail@ == name@
            &&& p.kind == ItemKind::Method
            &&& p.insert_text@ == name@
            &&& !p.snippet
        },
        CompletionChoice::Property { name } => {
            &&& p.label@ == name@
            &&& p.detail@ == name@
            &&& p.kind == ItemKind::Field
            &&& p.insert_text@ == name@ + "="@
            &&& !p.snippet
        },
        _ => false,
    }
}

/// The item that the server writes itself for `choice`; none for the event
/// handler completions and the value completions of a type, which come
/// ready-made.
pub fn plain_completion(choice: &CompletionChoice) -> (r: Option<PlainCompletion>)
    ensures
        r is None <==> (choice is EventHandlers || choice is PropertyType),
        r matches Some(p) ==> is_plain_completion_of(p, *choice),
{
    match choice {
        CompletionChoice::Component { name } => Some(
            PlainCompletion {
                label: name.clone(),
                detail: String::from_str(""),
                kind: ItemKind::Class,
                insert_text: name.clone().concat(" $0 />"),
                snippet: true,
            },
        ),
        CompletionChoice::SettingsBlock => Some(
            PlainCompletion {
                label: String::from_str("settings"),
                detail: String::from_str("Define classes and id selectors"),
                kind: ItemKind::Class,
                insert_text: String::from_str("settings {\n\t $0 \n}"),
                snippet: true,
            },
        ),
        CompletionChoice::HandlersBlock => Some(
            PlainCompletion {
                label: String::from_str("handlers"),
                detail: String::from_str("Define root component event handlers"),
                kind: ItemKind::Class,
                insert_text: String::from_str("handlers {\n\t $0 \n}"),
                snippet: true,
            },
        ),
        CompletionChoice::Method { name } => Some(
            PlainCompletion {
                label: name.clone(),
                detail: name.clone(),
                kind: ItemKind::Method,
                insert_text: name.clone(),
                snippet: false,
            },
        ),
        CompletionChoice::Property { name } => Some(
            PlainCompletion {
                label: name.clone(),
                detail: name.clone(),
                kind: ItemKind::Field,
                insert_text: name.clone().concat("="),
                snippet: false,
            },
        ),
        CompletionChoice::EventHandlers => None,
        CompletionChoice::PropertyType { .. } => None,
    }
}

/// Where the request comes from: the character that triggered it, if any,
/// the word and the character before the cursor, the enclosing element tag,
/// and whether the attribute under the cursor fails to parse.
pub struct CompletionContext {
    pub trigger_character: Option<String>,
    pub prior_word: Option<String>,
    pub prior_character: Option<char>,
    pub tag_node: Option<NodeType>,
    pub has_attribute_error: bool,
}

/// The components of a listing of the map other than the current one, as
/// element tags, in the listing's order.
pub open spec fn component_choices(entries: Seq<(String, IdentifierInfo)>, current: Seq<char>) -> Seq<
    CompletionChoice,
>
    decreases entries.len(),
{
    if entries.len() == 0 {
        Seq::empty()
    } else {
        let rest = component_choices(entries.drop_last(), current);
        let item = entries.last().1;
        if item.ty == IdentifierType::Component && item.identifier@ != current {
            rest.push(CompletionChoice::Component { name: item.identifier })
        } else {
            rest
        }
    }
}

/// The methods of an item, by name.
pub open spec fn method_choices(methods: Seq<MethodInfo>) -> Seq<CompletionChoice> {
    methods.map_values(|m: MethodInfo| CompletionChoice::Method { name: m.identifier })
}

/// The properties of an item, as attributes.
pub open spec fn property_choices(properties: Seq<PropertyInfo>) -> Seq<CompletionChoice> {
    properties.map_values(|p: PropertyInfo| CompletionChoice::Property { name: p.identifier })
}

/// The methods of the item held for `key`, if there is one.
pub open spec fn methods_of(map: IdentifierMap, key: Seq<char>) -> Seq<CompletionChoice> {
    match lookup(map, key) {
        Some(item) => method_choices(item.methods@),
        None => Seq::empty(),
    }
}

/// The attributes of the item held for `key`, if there is one.
pub open spec fn properties_of(map: IdentifierMap, key: Seq<char>) -> Seq<CompletionChoice> {
    match lookup(map, key) {
        Some(item) => property_choices(item.properties@),
        None => Seq::empty(),
    }
}

/// The value completions of the property named `word` without its `=`
/// characters, of the item held for `key`.
pub open spec fn type_choices(map: IdentifierMap, key: Seq<char>, word: Seq<char>) -> Seq<
    CompletionChoice,
> {
    match lookup(map, key) {
        Some(item) => match find_named(item.properties@, without_char(word, '=')) {
            Some(p) => seq![CompletionChoice::PropertyType { rust_type: p.rust_type }],
            None => Seq::empty(),
        },
        None => Seq::empty(),
    }
}

/// What follows an `=` after `word`: the component's methods where the
/// word holds an `@` (an event handler), else the values of the attribute
/// the word names, on the element `tag` or among the common properties.
pub open spec fn value_choices(
    component: PaxComponent,
    tag: Option<NodeType>,
    word: Seq<char>,
) -> Seq<CompletionChoice> {
    let map = component.identifier_map;
    if word.contains('@') {
        methods_of(map, component.component_name@)
    } else {
        match tag {
            Some(NodeType::Tag { pascal_identifier }) => type_choices(map, pascal_identifier@, word)
                + type_choices(map, "CommonProperties"@, word),
            _ => Seq::empty(),
        }
    }
}

/// The request was triggered by `<`: the completions are element tags.
pub open spec fn is_tag_trigger(ctx: CompletionContext) -> bool {
    ctx.trigger_character matches Some(t) && t@ == "<"@
}

/// The completions offered at the cursor, where the request was not
/// triggered by `<`.
pub open spec fn completion_choices(component: PaxComponent, ctx: CompletionContext) -> Seq<
    CompletionChoice,
> {
    let map = component.identifier_map;
    match ctx.trigger_character {
        Some(t) => if t@ == "<"@ {
            Seq::empty()
        } else if t@ == "@"@ {
            if ctx.tag_node is Some {
                seq![CompletionChoice::EventHandlers]
            } else {
                seq![CompletionChoice::SettingsBlock, CompletionChoice::HandlersBlock]
            }
        } else if t@ == "="@ {
            match ctx.prior_word {
                Some(w) => value_choices(component, ctx.tag_node, w@),
                None => Seq::empty(),
            }
        } else {
            Seq::empty()
        },
        None => match ctx.tag_node {
            Some(NodeType::Tag { pascal_identifier }) => {
                let values = if ctx.prior_character == Some('=') {
                    match ctx.prior_word {
                        Some(w) => value_choices(component, ctx.tag_node, w@),
                        None => Seq::empty(),
                    }
                } else {
                    Seq::empty()
                };
                let attributes = if !ctx.has_attribute_error {
                    properties_of(map, pascal_identifier@) + properties_of(map, "CommonProperties"@)
                } else {
                    Seq::empty()
                };
                values + attributes
            },
            _ => Seq::empty(),
        },
    }
}

fn push_component_choices(
    entries: &Vec<(String, IdentifierInfo)>,
    current: &String,
    out: &mut Vec<CompletionChoice>,
)
    ensures
        final(out)@ == old(out)@ + component_choices(entries@, current@),
{
    let mut i: usize = 0;
    let ghost out0 = out@;
    while i < entries.len()
        invariant
            i <= entries@.len(),
            out@ == out0 + component_choices(entries@.take(i as int), current@),
        decreases entries@.len() - i,
    {
        assert(entries@.take(i + 1).drop_last() =~= entries@.take(i as int));
        let item = &entries[i].1;
        if item.ty == IdentifierType::Component && !item.identifier.eq(current) {
            out.push(CompletionChoice::Component { name: item.identifier.clone() });
        }
        i = i + 1;
    }
    assert(entries@.take(i as int) =~= entries@);
}

fn push_methods_of(map: &mut IdentifierMap, key: &String, out: &mut Vec<CompletionChoice>)
    ensures
        final(out)@ == old(out)@ + methods_of(*old(map), key@),
        identifier_map_contents(*final(map)) == identifier_map_contents(*old(map)),
{
    let ghost out0 = out@;
    match map_get(map, key) {
        Some(item) => {
            let mut i: usize = 0;
            while i < item.methods.len()
                invariant
                    i <= item.methods@.len(),
                    out@ == out0 + method_choices(item.methods@.take(i as int)),
                decreases item.methods@.len() - i,
            {
                out.push(CompletionChoice::Method { name: item.methods[i].identifier.clone() });
                assert(method_choices(item.methods@.take(i + 1)) =~= method_choices(
                    item.methods@.take(i as int),
                ).push(CompletionChoice::Method { name: item.methods@[i as int].identifier }));
                i = i + 1;
            }
            assert(item.methods@.take(i as int) =~= item.methods@);
        },
        None => {
            assert(out@ =~= out0 + methods_of(*old(map), key@));
        },
    }
}

fn push_properties_of(map: &mut IdentifierMap, key: &String, out: &mut Vec<CompletionChoice>)
    ensures
        final(out)@ == old(out)@ + properties_of(*old(map), key@),
        identifier_map_contents(*final(map)) == identifier_map_contents(*old(map)),
{
    let ghost out0 = out@;
    match map_get(map, key) {
        Some(item) => {
            let mut i: usize = 0;
            while i < item.properties.len()
                invariant
                    i <= item.properties@.len(),
                    out@ == out0 + property_choices(item.properties@.take(i as int)),
                decreases item.properties@.len() - i,
            {
                out.push(CompletionChoice::Property { name: item.properties[i].identifier.clone() });
                assert(property_choices(item.properties@.take(i + 1)) =~= property_choices(
                    item.properties@.take(i as int),
                ).push(CompletionChoice::Property { name: item.properties@[i as int].identifier }));
                i = i + 1;
            }
            assert(item.properties@.take(i as int) =~= item.properties@);
        },
        None => {
            assert(out@ =~= out0 + properties_of(*old(map), key@));
        },
    }
}

fn push_type_choices(
    map: &mut IdentifierMap,
    key: &String,
    word: &String,
    out: &mut Vec<CompletionChoice>,
)
    ensures
        final(out)@ == old(out)@ + type_choices(*old(map), key@, word@),
        identifier_map_contents(*final(map)) == identifier_map_contents(*old(map)),
{
    let ghost target = without_char(word@, '=');
    let item_for_key = map_get(map, key);
    let found: Option<&PropertyInfo> = match &item_for_key {
        Some(item) => {
            let mut i: usize = 0;
            let mut found: Option<&PropertyInfo> = None;
            while i < item.properties.len()
                invariant_except_break
                    found is None,
                invariant
                    i <= item.properties@.len(),
                    target == without_char(word@, '='),
                    first_named(item.properties@, target) == first_named_from(
                        item.properties@,
                        target,
                        i as int,
                    ),
                ensures
                    match found {
                        Some(p) => find_named(item.properties@, target) == Some(*p),
                        None => find_named(item.properties@, target) is None,
                    },
                decreases item.properties@.len() - i,
            {
                if equals_without_char(&item.properties[i].identifier, word, '=') {
                    found = Some(&item.properties[i]);
                    break;
                }
                i = i + 1;
            }
            found
        },
        None => None,
    };
    match found {
        Some(p) => out.push(CompletionChoice::PropertyType { rust_type: p.rust_type.clone() }),
        None => {},
    }
}

fn push_value_choices(
    component: &mut PaxComponent,
    tag: &Option<NodeType>,
    word: &String,
    out: &mut Vec<CompletionChoice>,
)
    ensures
        final(out)@ == old(out)@ + value_choices(*old(component), *tag, word@),
        final(component).component_name == old(component).component_name,
        identifier_map_contents(final(component).identifier_map) == identifier_map_contents(
            old(component).identifier_map,
        ),
{
    let ghost out0 = out@;
    let ghost c0 = *component;
    if contains_char(word, '@') {
        push_methods_of(&mut component.identifier_map, &component.component_name, out);
    } else {
        match tag {
            Some(NodeType::Tag { pascal_identifier }) => {
                push_type_choices(&mut component.identifier_map, pascal_identifier, word, out);
                push_type_choices(
                    &mut component.identifier_map,
                    &String::from_str("CommonProperties"),
                    word,
                    out,
                );
                assert(out@ =~= out0 + value_choices(c0, *tag, word@));
            },
            _ => {
                assert(out@ =~= out0 + value_choices(c0, *tag, word@));
            },
        }
    }
}

/// The completions to offer at the cursor, in order. After a `<` they are
/// the other components in the order in which the map lists its items,
/// which the map leaves open. The component is taken through `&mut` so
/// that nothing else writes its map meanwhile; it keeps its name and what
/// its map holds.
pub fn completion(component: &mut PaxComponent, ctx: &CompletionContext) -> (r: Vec<
    CompletionChoice,
>)
    ensures
        is_tag_trigger(*ctx) ==> exists|l: Seq<(String, IdentifierInfo)>|
            is_listing_of(l, identifier_map_contents(old(component).identifier_map)) && r@
                == #[trigger] component_choices(l, old(component).component_name@),
        !is_tag_trigger(*ctx) ==> r@ == completion_choices(*old(component), *ctx),
        final(component).component_name == old(component).component_name,
        identifier_map_contents(final(component).identifier_map) == identifier_map_contents(
            old(component).identifier_map,
        ),
{
    let mut out: Vec<CompletionChoice> = Vec::new();
    let ghost c0 = *component;
    match &ctx.trigger_character {
        Some(t) => {
            if t.eq(&String::from_str("<")) {
                let entries = map_entries(&mut component.identifier_map);
                push_component_choices(&entries, &component.component_name, &mut out);
                assert(is_listing_of(entries@, identifier_map_contents(c0.identifier_map)));
                assert(out@ == component_choices(entries@, c0.component_name@));
                return out;
            } else if t.eq(&String::from_str("@")) {
                if ctx.tag_node.is_some() {
                    out.push(CompletionChoice::EventHandlers);
                } else {
                    out.push(CompletionChoice::SettingsBlock);
                    out.push(CompletionChoice::HandlersBlock);
                }
            } else if t.eq(&String::from_str("=")) {
                match &ctx.prior_word {
                    Some(w) => push_value_choices(component, &ctx.tag_node, w, &mut out),
                    None => {},
                }
            }
        },
        None => {
            match &ctx.tag_node {
                Some(NodeType::Tag { pascal_identifier }) => {
                    if ctx.prior_character == Some('=') {
                        match &ctx.prior_word {
                            Some(w) => push_value_choices(component, &ctx.tag_node, w, &mut out),
                            None => {},
                        }
                    }
                    if !ctx.has_attribute_error {
                        push_properties_of(&mut component.identifier_map, pascal_identifier, &mut out);
                        push_properties_of(
                            &mut component.identifier_map,
                            &String::from_str("CommonProperties"),
                            &mut out,
                        );
                    }
                },
                _ => {},
            }
        },
    }
    assert(out@ =~= completion_choices(c0, *ctx));
    out
}

} // verus!
