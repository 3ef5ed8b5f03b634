//! How recording the editor's answers and resolving the cursor fit
//! together.

use vstd::prelude::*;
use crate::lsp::info::{
    enrichment_recorded, is_common_property_name, is_member_type, method_info_replaced, request_key,
    property_info_replaced, resolved_info, variant_info_replaced,
};
use crate::lsp::completion::{
    completion_choices, component_choices, is_tag_trigger, CompletionChoice, CompletionContext,
};
use crate::lsp::changes::{is_pax_path_spec, is_rust_path_spec};
use crate::lsp::model::{
    find_named, first_named, first_named_from, identifier_map_contents, lookup, IdentifierType,
    IdentifierInfo, Info, InfoRequest, MethodInfo, Named, NodeType, PaxComponent,
    lemma_first_named_from_bounds,
};

verus! {

proof fn lemma_first_named_from_same_names<T: Named>(
    a: Seq<T>,
    b: Seq<T>,
    name: Seq<char>,
    i: int,
)
    requires
        a.len() == b.len(),
        forall|j: int| 0 <= j < a.len() ==> #[trigger] a[j].name() == b[j].name(),
    ensures
        first_named_from(a, name, i) == first_named_from(b, name, i),
    decreases a.len() - i,
{
    if 0 <= i < a.len() && a[i].name() != name {
        lemma_first_named_from_same_names(a, b, name, i + 1);
    }
}

/// Read after write, for items: once the editor's answer to a request about
/// an indexed item is recorded, an identifier naming that item resolves to
/// the recorded info.
pub proof fn law_recorded_item_info_is_resolved(
    before: PaxComponent,
    after: PaxComponent,
    request: InfoRequest,
    info: Info,
    tag: Option<NodeType>,
    word_under_cursor: String,
)
    requires
        after.component_name == before.component_name,
        enrichment_recorded(
            identifier_map_contents(before.identifier_map),
            identifier_map_contents(after.identifier_map),
            request,
            info,
        ),
        !is_member_type(request.identifier_type),
        lookup(before.identifier_map, request.identifier@) is Some,
    ensures
        resolved_info(
            after,
            Some(NodeType::Identifier { identifier: request.identifier }),
            tag,
            Some(NodeType::Identifier { identifier: word_under_cursor }),
        ) == Some(info),
{
}

/// Read after write, for properties: once the editor's answer to a request
/// about a property of an indexed struct is recorded, that attribute on an
/// element of the struct resolves to the recorded info.
pub proof fn law_recorded_property_info_is_resolved(
    before: PaxComponent,
    after: PaxComponent,
    request: InfoRequest,
    info: Info,
    word_under_cursor: String,
)
    requires
        after.component_name == before.component_name,
        enrichment_recorded(
            identifier_map_contents(before.identifier_map),
            identifier_map_contents(after.identifier_map),
            request,
            info,
        ),
        request.identifier_type == IdentifierType::Property,
        request.owner_identifier is Some,
        lookup(before.identifier_map, request.owner_identifier->0@) matches Some(item)
            && find_named(item.properties@, request.identifier@) is Some,
        !is_common_property_name(request.identifier@),
    ensures
        resolved_info(
            after,
            Some(NodeType::AttributeKeyValuePair { identifier: request.identifier }),
            Some(NodeType::Tag { pascal_identifier: request.owner_identifier->0 }),
            Some(NodeType::Identifier { identifier: word_under_cursor }),
        ) == Some(info),
{
    let owner = request.owner_identifier->0@;
    let props = identifier_map_contents(before.identifier_map)[owner].properties@;
    let now = identifier_map_contents(after.identifier_map)[owner].properties@;
    lemma_first_named_from_bounds(props, request.identifier@, 0);
    let j = first_named(props, request.identifier@)->0;
    assert(property_info_replaced(props, now, j, info));
    assert forall|m: int| 0 <= m < props.len() implies #[trigger] props[m].name() == now[m].name() by {
    }
    lemma_first_named_from_same_names(props, now, request.identifier@, 0);
}

/// Read after write, for methods: once the editor's answer to a request
/// about a method of an indexed struct is recorded, a call of that method
/// on the struct resolves to the recorded info (where the cursor is on the
/// method rather than on the struct's name).
pub proof fn law_recorded_method_info_is_resolved(
    before: PaxComponent,
    after: PaxComponent,
    request: InfoRequest,
    info: Info,
    word_under_cursor: String,
)
    requires
        after.component_name == before.component_name,
        enrichment_recorded(
            identifier_map_contents(before.identifier_map),
            identifier_map_contents(after.identifier_map),
            request,
            info,
        ),
        request.identifier_type == IdentifierType::Method,
        request.owner_identifier is Some,
        lookup(before.identifier_map, request.owner_identifier->0@) matches Some(item)
            && find_named(item.methods@, request.identifier@) is Some,
        word_under_cursor@ != request.owner_identifier->0@,
    ensures
        resolved_info(
            after,
            Some(
                NodeType::XoFunctionCall {
                    struct_name: request.owner_identifier->0,
                    function_name: request.identifier,
                },
            ),
            None,
            Some(NodeType::Identifier { identifier: word_under_cursor }),
        ) == Some(info),
{
    let owner = request.owner_identifier->0@;
    let ms = identifier_map_contents(before.identifier_map)[owner].methods@;
    let now = identifier_map_contents(after.identifier_map)[owner].methods@;
    lemma_first_named_from_bounds(ms, request.identifier@, 0);
    let j = first_named(ms, request.identifier@)->0;
    assert(method_info_replaced(ms, now, j, info));
    assert forall|m: int| 0 <= m < ms.len() implies #[trigger] ms[m].name() == now[m].name() by {
    }
    lemma_first_named_from_same_names(ms, now, request.identifier@, 0);
}

/// Read after write, for enum variants: once the editor's answer to a
/// request about a variant of an indexed enum is recorded, that variant
/// written with the enum's name resolves to the recorded info (where the
/// cursor is on the variant rather than on the enum's name).
pub proof fn law_recorded_variant_info_is_resolved(
    before: PaxComponent,
    after: PaxComponent,
    request: InfoRequest,
    info: Info,
    word_under_cursor: String,
)
    requires
        after.component_name == before.component_name,
        enrichment_recorded(
            identifier_map_contents(before.identifier_map),
            identifier_map_contents(after.identifier_map),
            request,
            info,
        ),
        request.identifier_type == IdentifierType::EnumVariant,
        request.owner_identifier is Some,
        request.owner_identifier->0@ != "Self"@,
        lookup(before.identifier_map, request.owner_identifier->0@) matches Some(item)
            && find_named(item.variants@, request.identifier@) is Some,
        word_under_cursor@ != request.owner_identifier->0@,
    ensures
        resolved_info(
            after,
            Some(
                NodeType::LiteralEnumValue {
                    enum_name: request.owner_identifier->0,
                    property_name: request.identifier,
                },
            ),
            None,
            Some(NodeType::Identifier { identifier: word_under_cursor }),
        ) == Some(info),
{
    let owner = request.owner_identifier->0@;
    let vs = identifier_map_contents(before.identifier_map)[owner].variants@;
    let now = identifier_map_contents(after.identifier_map)[owner].variants@;
    lemma_first_named_from_bounds(vs, request.identifier@, 0);
    let j = first_named(vs, request.identifier@)->0;
    assert(variant_info_replaced(vs, now, j, info));
    assert forall|m: int| 0 <= m < vs.len() implies #[trigger] vs[m].name() == now[m].name() by {
    }
    lemma_first_named_from_same_names(vs, now, request.identifier@, 0);
}

/// After a `<`, only other components are offered: every completion is an
/// element tag named after a component of the listing, and never after the
/// component being edited.
pub proof fn law_tag_completions_name_other_components(
    listing: Seq<(String, IdentifierInfo)>,
    current: Seq<char>,
)
    ensures
        forall|j: int|
            0 <= j < component_choices(listing, current).len() ==> (#[trigger] component_choices(
                listing,
                current,
            )[j] matches CompletionChoice::Component { name } && name@ != current && exists|i: int|
                0 <= i < listing.len() && listing[i].1.ty == IdentifierType::Component
                    && #[trigger] listing[i].1.identifier == name),
    decreases listing.len(),
{
    if listing.len() > 0 {
        let rest = listing.drop_last();
        law_tag_completions_name_other_components(rest, current);
        let all = component_choices(listing, current);
        let before = component_choices(rest, current);
        assert forall|j: int| 0 <= j < all.len() implies (#[trigger] all[j] matches CompletionChoice::Component {
            name,
        } && name@ != current && exists|i: int|
            0 <= i < listing.len() && listing[i].1.ty == IdentifierType::Component
                && #[trigger] listing[i].1.identifier == name) by {
            if j < before.len() {
                assert(all[j] == before[j]);
                let name = before[j]->Component_name;
                let i = choose|i: int|
                    0 <= i < rest.len() && rest[i].1.ty == IdentifierType::Component
                        && #[trigger] rest[i].1.identifier == name;
                assert(listing[i] == rest[i]);
            } else {
                let last = listing.len() - 1;
                assert(listing[last].1.identifier == all[j]->Component_name);
            }
        }
    }
}


/// Once an event handler is being bound (an `=` typed after a word that
/// holds an `@`), the completions are the methods of the component being
/// edited, in the order in which it declares them, whatever element
/// encloses the cursor.
pub proof fn law_handler_completions_are_the_component_methods(
    component: PaxComponent,
    ctx: CompletionContext,
)
    requires
        ctx.trigger_character matches Some(t) && t@ == "="@,
        ctx.prior_word matches Some(w) && w@.contains('@'),
    ensures
        !is_tag_trigger(ctx),
        completion_choices(component, ctx) == match lookup(
            component.identifier_map,
            component.component_name@,
        ) {
            Some(item) => item.methods@.map_values(
                |m: MethodInfo| CompletionChoice::Method { name: m.identifier },
            ),
            None => Seq::<CompletionChoice>::empty(),
        },
{
    reveal_strlit("=");
    reveal_strlit("<");
    reveal_strlit("@");
    let t = ctx.trigger_character->0;
    assert(t@[0] == '=' && "<"@[0] == '<' && "@"@[0] == '@');
    assert(t@ != "<"@ && t@ != "@"@);
    match lookup(component.identifier_map, component.component_name@) {
        Some(item) => {
            assert(completion_choices(component, ctx) =~= item.methods@.map_values(
                |m: MethodInfo| CompletionChoice::Method { name: m.identifier },
            ));
        },
        None => {},
    }
}

/// Without a trigger character, after an `=` typed inside an element after
/// a word that holds an `@`, the completions begin with the methods of the
/// component being edited, in the order in which it declares them.
pub proof fn law_handler_values_come_first_inside_an_element(
    component: PaxComponent,
    ctx: CompletionContext,
)
    requires
        ctx.trigger_character is None,
        ctx.tag_node matches Some(NodeType::Tag { .. }),
        ctx.prior_character == Some('='),
        ctx.prior_word matches Some(w) && w@.contains('@'),
    ensures
        ({
            let methods = match lookup(component.identifier_map, component.component_name@) {
                Some(item) => item.methods@.map_values(
                    |m: MethodInfo| CompletionChoice::Method { name: m.identifier },
                ),
                None => Seq::<CompletionChoice>::empty(),
            };
            &&& methods.len() <= completion_choices(component, ctx).len()
            &&& completion_choices(component, ctx).take(methods.len() as int) == methods
        }),
{
    let methods = match lookup(component.identifier_map, component.component_name@) {
        Some(item) => item.methods@.map_values(
            |m: MethodInfo| CompletionChoice::Method { name: m.identifier },
        ),
        None => Seq::<CompletionChoice>::empty(),
    };
    let all = completion_choices(component, ctx);
    assert(all.take(methods.len() as int) =~= methods);
}

/// The attributes that every element accepts are exactly these twelve.
pub proof fn law_common_attribute_names(name: Seq<char>)
    ensures
        is_common_property_name(name) <==> set![
            "x"@,
            "y"@,
            "scale_x"@,
            "scale_y"@,
            "skew_x"@,
            "skew_y"@,
            "rotate"@,
            "anchor_x"@,
            "anchor_y"@,
            "transform"@,
            "width"@,
            "height"@,
        ].contains(name),
{
}

/// An attribute that every element accepts (position, scale, skew, rotation,
/// anchor, transform and size) resolves to its declaration in
/// `CommonProperties`, whatever element it is written on.
pub proof fn law_common_attributes_resolve_through_common_properties(
    component: PaxComponent,
    name: String,
    element: String,
    word_under_cursor: String,
)
    requires
        name@ == "x"@ || name@ == "y"@ || name@ == "scale_x"@ || name@ == "scale_y"@ || name@
            == "skew_x"@ || name@ == "skew_y"@ || name@ == "rotate"@ || name@ == "anchor_x"@
            || name@ == "anchor_y"@ || name@ == "transform"@ || name@ == "width"@ || name@
            == "height"@,
    ensures
        resolved_info(
            component,
            Some(NodeType::AttributeKeyValuePair { identifier: name }),
            Some(NodeType::Tag { pascal_identifier: element }),
            Some(NodeType::Identifier { identifier: word_under_cursor }),
        ) == match lookup(component.identifier_map, "CommonProperties"@) {
            Some(item) => match find_named(item.properties@, name@) {
                Some(p) => Some(p.info),
                None => None,
            },
            None => None,
        },
{
}

/// Any other attribute resolves to its declaration in the struct of the
/// element it is written on.
pub proof fn law_element_attributes_resolve_through_the_element(
    component: PaxComponent,
    name: String,
    element: String,
    word_under_cursor: String,
)
    requires
        !(name@ == "x"@ || name@ == "y"@ || name@ == "scale_x"@ || name@ == "scale_y"@ || name@
            == "skew_x"@ || name@ == "skew_y"@ || name@ == "rotate"@ || name@ == "anchor_x"@
            || name@ == "anchor_y"@ || name@ == "transform"@ || name@ == "width"@ || name@
            == "height"@),
    ensures
        resolved_info(
            component,
            Some(NodeType::AttributeKeyValuePair { identifier: name }),
            Some(NodeType::Tag { pascal_identifier: element }),
            Some(NodeType::Identifier { identifier: word_under_cursor }),
        ) == match lookup(component.identifier_map, element@) {
            Some(item) => match find_named(item.properties@, name@) {
                Some(p) => Some(p.info),
                None => None,
            },
            None => None,
        },
{
}

/// Recording the editor's answer about a member (a property, method or
/// variant) leaves the info of every item as it was: an identifier
/// resolves to the same info after the answer as before, the member's
/// owner included.
pub proof fn law_member_answers_keep_item_infos(
    before: PaxComponent,
    after: PaxComponent,
    request: InfoRequest,
    info: Info,
    name: String,
    tag: Option<NodeType>,
    word_under_cursor: String,
)
    requires
        after.component_name == before.component_name,
        enrichment_recorded(
            identifier_map_contents(before.identifier_map),
            identifier_map_contents(after.identifier_map),
            request,
            info,
        ),
        is_member_type(request.identifier_type),
    ensures
        resolved_info(
            after,
            Some(NodeType::Identifier { identifier: name }),
            tag,
            Some(NodeType::Identifier { identifier: word_under_cursor }),
        ) == resolved_info(
            before,
            Some(NodeType::Identifier { identifier: name }),
            tag,
            Some(NodeType::Identifier { identifier: word_under_cursor }),
        ),
{
    let b = identifier_map_contents(before.identifier_map);
    let a = identifier_map_contents(after.identifier_map);
    let key = request_key(request);
    if b.dom().contains(key) && name@ == key {
        assert(a.dom().contains(key));
        assert(a[key].info == b[key].info);
    }
}

/// Recording the editor's answer about an item itself leaves the info of
/// every property and method as it was: an attribute, and a call of a
/// method of the component, resolve to the same info after the answer as
/// before.
pub proof fn law_item_answers_keep_member_infos(
    before: PaxComponent,
    after: PaxComponent,
    request: InfoRequest,
    info: Info,
    node: NodeType,
    tag: Option<NodeType>,
    word_under_cursor: String,
)
    requires
        after.component_name == before.component_name,
        enrichment_recorded(
            identifier_map_contents(before.identifier_map),
            identifier_map_contents(after.identifier_map),
            request,
            info,
        ),
        !is_member_type(request.identifier_type),
        node is AttributeKeyValuePair || node is LiteralFunction,
    ensures
        resolved_info(
            after,
            Some(node),
            tag,
            Some(NodeType::Identifier { identifier: word_under_cursor }),
        ) == resolved_info(
            before,
            Some(node),
            tag,
            Some(NodeType::Identifier { identifier: word_under_cursor }),
        ),
{
}

/// A path names a Rust source file exactly when it ends in the three
/// characters `.rs`; saving any other file does nothing.
pub proof fn law_rust_paths_end_in_rs(path: Seq<char>)
    ensures
        is_rust_path_spec(path) <==> (path.len() >= 3 && path[path.len() - 3] == '.'
            && path[path.len() - 2] == 'r' && path[path.len() - 1] == 's'),
{
    reveal_strlit(".rs");
    if path.len() >= 3 {
        let tail = path.subrange(path.len() - 3, path.len() as int);
        if path[path.len() - 3] == '.' && path[path.len() - 2] == 'r' && path[path.len() - 1]
            == 's' {
            assert(tail =~= ".rs"@);
        }
        if tail == ".rs"@ {
            assert(tail[0] == '.' && tail[1] == 'r' && tail[2] == 's');
        }
    }
}

/// A path names a Pax document exactly when it ends in the four characters
/// `.pax`.
pub proof fn law_pax_paths_end_in_pax(path: Seq<char>)
    ensures
        is_pax_path_spec(path) <==> (path.len() >= 4 && path[path.len() - 4] == '.'
            && path[path.len() - 3] == 'p' && path[path.len() - 2] == 'a' && path[path.len() - 1]
            == 'x'),
{
    reveal_strlit(".pax");
    if path.len() >= 4 {
        let tail = path.subrange(path.len() - 4, path.len() as int);
        if path[path.len() - 4] == '.' && path[path.len() - 3] == 'p' && path[path.len() - 2]
            == 'a' && path[path.len() - 1] == 'x' {
            assert(tail =~= ".pax"@);
        }
        if tail == ".pax"@ {
            assert(tail[0] == '.' && tail[1] == 'p' && tail[2] == 'a' && tail[3] == 'x');
        }
    }
}

} // verus!
