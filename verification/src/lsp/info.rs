//! What a hover or a jump to a definition resolves to, and how the answers of
//! the editor are recorded in a component's identifier map.

use vstd::prelude::*;
use crate::lsp::model::{
    find_named, first_named, identifier_map_contents, item_for, lookup, map_get, map_insert,
    map_remove, position_named, EnrichResult, IdentifierInfo, IdentifierMap, IdentifierType, Info,
    InfoRequest, MethodInfo, NodeType, PaxComponent, PropertyInfo, VariantInfo,
};

verus! {

/// The attribute names that every element accepts; they are declared by the
/// struct `CommonProperties` rather than by the element's own struct.
pub open spec fn is_common_property_name(name: Seq<char>) -> bool {
    ||| name == "x"@
    ||| name == "y"@
    ||| name == "scale_x"@
    ||| name == "scale_y"@
    ||| name == "skew_x"@
    ||| name == "skew_y"@
    ||| name == "rotate"@
    ||| name == "anchor_x"@
    ||| name == "anchor_y"@
    ||| name == "transform"@
    ||| name == "width"@
    ||| name == "height"@
}

/// Whether `name` is one of the attribute names that every element accepts.
pub fn is_common_property(name: &String) -> (r: bool)
    ensures
        r == is_common_property_name(name@),
{
    name.eq(&String::from_str("x")) || name.eq(&String::from_str("y")) || name.eq(
        &String::from_str("scale_x"),
    ) || name.eq(&String::from_str("scale_y")) || name.eq(&String::from_str("skew_x")) || name.eq(
        &String::from_str("skew_y"),
    ) || name.eq(&String::from_str("rotate")) || name.eq(&String::from_str("anchor_x")) || name.eq(
        &String::from_str("anchor_y"),
    ) || name.eq(&String::from_str("transform")) || name.eq(&String::from_str("width"))
        || name.eq(&String::from_str("height"))
}

/// The info of the method named `name` of the item held for `key`.
pub open spec fn method_info(map: IdentifierMap, key: Seq<char>, name: Seq<char>) -> Option<Info> {
    match lookup(map, key) {
        Some(item) => match find_named(item.methods@, name) {
            Some(m) => Some(m.info),
            None => None,
        },
        None => None,
    }
}

/// What the node under the cursor resolves to. `priority` is the node that
/// the request is about, `tag` the element that encloses it and `ident` the
/// identifier under the cursor; each is absent where the cursor has none.
pub open spec fn resolved_info(
    component: PaxComponent,
    priority: Option<NodeType>,
    tag: Option<NodeType>,
    ident: Option<NodeType>,
) -> Option<Info> {
    let map = component.identifier_map;
    match (priority, ident) {
        (Some(node), Some(NodeType::Identifier { identifier: ident_name })) => match node {
            NodeType::Identifier { identifier } => match lookup(map, identifier@) {
                Some(item) => Some(item.info),
                None => None,
            },
            NodeType::LiteralFunction { function_name } => method_info(
                map,
                component.component_name@,
                function_name@,
            ),
            NodeType::LiteralEnumValue { enum_name, property_name } => {
                let struct_id = if enum_name@ == "Self"@ {
                    component.component_name@
                } else {
                    enum_name@
                };
                match lookup(map, struct_id) {
                    Some(item) => if ident_name@ == enum_name@ {
                        Some(item.info)
                    } else {
                        match find_named(item.variants@, property_name@) {
                            Some(v) => Some(v.info),
                            None => None,
                        }
                    },
                    None => None,
                }
            },
            NodeType::XoFunctionCall { struct_name, function_name } => match lookup(
                map,
                struct_name@,
            ) {
                Some(item) => if ident_name@ == struct_name@ {
                    Some(item.info)
                } else {
                    method_info(map, struct_name@, function_name@)
                },
                None => None,
            },
            NodeType::AttributeKeyValuePair { identifier } => match tag {
                Some(NodeType::Tag { pascal_identifier }) => {
                    let struct_id = if is_common_property_name(identifier@) {
                        "CommonProperties"@
                    } else {
                        pascal_identifier@
                    };
                    match lookup(map, struct_id) {
                        Some(item) => match find_named(item.properties@, identifier@) {
                            Some(p) => Some(p.info),
                            None => None,
                        },
                        None => None,
                    }
                },
                _ => None,
            },
            _ => None,
        },
        _ => None,
    }
}

fn method_info_of(map: &mut IdentifierMap, key: &String, name: &String) -> (r: Option<Info>)
    ensures
        r == method_info(*old(map), key@, name@),
        identifier_map_contents(*final(map)) == identifier_map_contents(*old(map)),
{
    match map_get(map, key) {
        Some(item) => match position_named(&item.methods, name) {
            Some(k) => Some(item.methods[k].info.clone()),
            None => None,
        },
        None => None,
    }
}

/// Resolves the node under the cursor to the definition info of the item,
/// method, variant or property it names. An enclosing `tag` node, where the
/// request has a `priority` node, is an element tag. The component is
/// taken through `&mut` so that nothing else writes its map meanwhile; it
/// keeps its name and what its map holds.
pub fn resolve_info(
    component: &mut PaxComponent,
    priority_node: &Option<NodeType>,
    tag_node: &Option<NodeType>,
    relevant_ident: &Option<NodeType>,
) -> (r: Option<Info>)
    requires
        priority_node is Some ==> (tag_node matches Some(t) ==> t is Tag),
    ensures
        r == resolved_info(*old(component), *priority_node, *tag_node, *relevant_ident),
        final(component).component_name == old(component).component_name,
        identifier_map_contents(final(component).identifier_map) == identifier_map_contents(
            old(component).identifier_map,
        ),
{
    let map = &mut component.identifier_map;
    let node = match priority_node {
        Some(node) => node,
        None => return None,
    };
    let struct_name: Option<&String> = match tag_node {
        Some(NodeType::Tag { pascal_identifier }) => Some(pascal_identifier),
        _ => None,
    };
    let ident_name = match relevant_ident {
        Some(NodeType::Identifier { identifier }) => identifier,
        _ => return None,
    };
    match node {
        NodeType::Identifier { identifier } => match map_get(map, identifier) {
            Some(item) => Some(item.info),
            None => None,
        },
        NodeType::LiteralFunction { function_name } => method_info_of(
            map,
            &component.component_name,
            function_name,
        ),
        NodeType::LiteralEnumValue { enum_name, property_name } => {
            let struct_id = if enum_name.eq(&String::from_str("Self")) {
                &component.component_name
            } else {
                enum_name
            };
            match map_get(map, struct_id) {
                Some(item) => {
                    if ident_name.eq(enum_name) {
                        Some(item.info)
                    } else {
                        match position_named(&item.variants, property_name) {
                            Some(k) => Some(item.variants[k].info.clone()),
                            None => None,
                        }
                    }
                },
                None => None,
            }
        },
        NodeType::XoFunctionCall { struct_name, function_name } => match map_get(map, struct_name) {
            Some(item) => {
                if ident_name.eq(struct_name) {
                    Some(item.info)
                } else {
                    method_info_of(map, struct_name, function_name)
                }
            },
            None => None,
        },
        NodeType::AttributeKeyValuePair { identifier } => match struct_name {
            Some(pascal) => {
                let common = String::from_str("CommonProperties");
                let struct_id = if is_common_property(identifier) {
                    &common
                } else {
                    pascal
                };
                match map_get(map, struct_id) {
                    Some(item) => match position_named(&item.properties, identifier) {
                        Some(k) => Some(item.properties[k].info.clone()),
                        None => None,
                    },
                    None => None,
                }
            },
            None => None,
        },
        _ => None,
    }
}

/// The id of the hover text of the resolved item, if it has one, as the
/// 32-bit value that the editor receives (the low 32 bits of the id).
pub fn hover_id_of(info: &Option<Info>) -> (r: Option<u32>)
    ensures
        r == match *info {
            Some(i) => match i.hover_id {
                Some(id) => Some(id as u32),
                None => None,
            },
            None => None,
        },
{
    match info {
        Some(i) => match i.hover_id {
            Some(id) => Some(id as u32),
            None => None,
        },
        None => None,
    }
}

/// The id of the definition of the resolved item, if it has one, as the
/// 32-bit value that the editor receives (the low 32 bits of the id).
pub fn definition_id_of(info: &Option<Info>) -> (r: Option<u32>)
    ensures
        r == match *info {
            Some(i) => match i.definition_id {
                Some(id) => Some(id as u32),
                None => None,
            },
            None => None,
        },
{
    match info {
        Some(i) => match i.definition_id {
            Some(id) => Some(id as u32),
            None => None,
        },
        None => None,
    }
}

/// The info of a request once the editor has answered it: the ids of the
/// answer where there is one, the info unchanged where the request failed.
pub open spec fn enriched_info(info: Info, response: Option<EnrichResult>) -> Info {
    match response {
        Some(res) => Info {
            definition_id: Some(res.getDefinition),
            hover_id: Some(res.getHover),
            ..info
        },
        None => info,
    }
}

/// The info of a request with the editor's answer recorded in it.
pub fn enrich_info(info: &Info, response: &Option<EnrichResult>) -> (r: Info)
    ensures
        r == enriched_info(*info, *response),
{
    let mut new_info = info.clone();
    match response {
        Some(res) => {
            new_info.definition_id = Some(res.getDefinition);
            new_info.hover_id = Some(res.getHover);
        },
        None => {},
    }
    new_info
}

/// A request about a member names the struct or enum that owns it.
pub open spec fn is_member_type(t: IdentifierType) -> bool {
    t == IdentifierType::Property || t == IdentifierType::Method || t == IdentifierType::EnumVariant
}

/// Whether a request of type `t` is about a member of a struct or enum,
/// and so must name its owner.
pub fn is_member_type_of(t: IdentifierType) -> (r: bool)
    ensures
        r == is_member_type(t),
{
    match t {
        IdentifierType::Property | IdentifierType::Method | IdentifierType::EnumVariant => true,
        _ => false,
    }
}

/// `after` is `before` with the info of item `j` replaced by `info`, its
/// name and other fields kept.
pub open spec fn property_info_replaced(
    before: Seq<PropertyInfo>,
    after: Seq<PropertyInfo>,
    j: int,
    info: Info,
) -> bool {
    after == before.update(
        j,
        PropertyInfo { identifier: before[j].identifier, rust_type: before[j].rust_type, info },
    )
}

/// `after` is `before` with the info of method `j` replaced by `info`.
pub open spec fn method_info_replaced(
    before: Seq<MethodInfo>,
    after: Seq<MethodInfo>,
    j: int,
    info: Info,
) -> bool {
    after == before.update(j, MethodInfo { identifier: before[j].identifier, info })
}

/// `after` is `before` with the info of variant `j` replaced by `info`.
pub open spec fn variant_info_replaced(
    before: Seq<VariantInfo>,
    after: Seq<VariantInfo>,
    j: int,
    info: Info,
) -> bool {
    after == before.update(j, VariantInfo { identifier: before[j].identifier, info })
}

/// The identifier under which the item that `request` is about, or that
/// owns the member it is about, is held.
pub open spec fn request_key(request: InfoRequest) -> Seq<char> {
    if is_member_type(request.identifier_type) {
        request.owner_identifier->0@
    } else {
        request.identifier@
    }
}

/// `now` is `item` with the answer to `request` recorded: the info of the
/// item itself, or of its first member named as the request says, becomes
/// `info` (nothing changes where it has no such member); every other field
/// is kept.
pub open spec fn item_recorded(
    item: IdentifierInfo,
    now: IdentifierInfo,
    request: InfoRequest,
    info: Info,
) -> bool {
    &&& now.ty == item.ty
    &&& now.identifier == item.identifier
    &&& if !is_member_type(request.identifier_type) {
        &&& now.info == info
        &&& now.properties@ == item.properties@
        &&& now.methods@ == item.methods@
        &&& now.variants@ == item.variants@
    } else {
        &&& now.info == item.info
        &&& if request.identifier_type == IdentifierType::Property {
            &&& now.methods@ == item.methods@
            &&& now.variants@ == item.variants@
            &&& match first_named(item.properties@, request.identifier@) {
                Some(j) => property_info_replaced(item.properties@, now.properties@, j, info),
                None => now.properties@ == item.properties@,
            }
        } else if request.identifier_type == IdentifierType::Method {
            &&& now.properties@ == item.properties@
            &&& now.variants@ == item.variants@
            &&& match first_named(item.methods@, request.identifier@) {
                Some(j) => method_info_replaced(item.methods@, now.methods@, j, info),
                None => now.methods@ == item.methods@,
            }
        } else {
            &&& now.properties@ == item.properties@
            &&& now.methods@ == item.methods@
            &&& match first_named(item.variants@, request.identifier@) {
                Some(j) => variant_info_replaced(item.variants@, now.variants@, j, info),
                None => now.variants@ == item.variants@,
            }
        }
    }
}

/// What recording the answer to `request` does to the contents `before` of
/// an identifier map: the item held under the request's key is replaced by
/// itself with the answer recorded; where no item is held there nothing
/// changes.
pub open spec fn enrichment_recorded(
    before: Map<Seq<char>, IdentifierInfo>,
    after: Map<Seq<char>, IdentifierInfo>,
    request: InfoRequest,
    info: Info,
) -> bool {
    let key = request_key(request);
    match item_for(before, key) {
        Some(item) => {
            &&& after.dom() == before.dom()
            &&& forall|k: Seq<char>| k != key && before.dom().contains(k) ==> after[k] == before[k]
            &&& item_recorded(item, after[key], request, info)
        },
        None => after == before,
    }
}

/// Records the editor's answer to `request` (`None` where the request
/// failed) in the identifier map of its component.
pub fn record_enrichment(
    map: &mut IdentifierMap,
    request: &InfoRequest,
    response: &Option<EnrichResult>,
)
    requires
        is_member_type(request.identifier_type) ==> request.owner_identifier is Some,
    ensures
        enrichment_recorded(
            identifier_map_contents(*old(map)),
            identifier_map_contents(*final(map)),
            *request,
            enriched_info(request.info, *response),
        ),
{
    let new_info = enrich_info(&request.info, response);
    let ghost before = identifier_map_contents(*map);
    let key: &String = match request.identifier_type {
        IdentifierType::Component | IdentifierType::PaxType | IdentifierType::Enum => &request.identifier,
        _ => request.owner_identifier.as_ref().unwrap(),
    };
    if let Some((_, mut item)) = map_remove(map, key) {
        let ghost old_item = item;
        match request.identifier_type {
            IdentifierType::Component | IdentifierType::PaxType | IdentifierType::Enum => {
                item.info = new_info;
            },
            IdentifierType::Property => {
                if let Some(j) = position_named(&item.properties, &request.identifier) {
                    item.properties[j].info = new_info;
                }
            },
            IdentifierType::Method => {
                if let Some(j) = position_named(&item.methods, &request.identifier) {
                    item.methods[j].info = new_info;
                }
            },
            IdentifierType::EnumVariant => {
                if let Some(j) = position_named(&item.variants, &request.identifier) {
                    item.variants[j].info = new_info;
                }
            },
        }
        assert(item_recorded(old_item, item, *request, enriched_info(request.info, *response)));
        map_insert(map, key.clone(), item);
        assert(identifier_map_contents(*map).dom() =~= before.dom());
    } else {
        assert(identifier_map_contents(*map) =~= before);
    }
}

} // verus!
