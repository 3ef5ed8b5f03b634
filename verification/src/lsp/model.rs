//! What the language server knows of a Pax component and of the nodes under
//! the cursor.

use vstd::prelude::*;
use dashmap::DashMap;

verus! {

/// A position in a document: zero-based line and character.
#[derive(Clone, Copy, Debug, PartialEq, Eq, Structural)]
pub struct Position {
    pub line: u32,
    pub character: u32,
}

/// Where an identifier is defined, and the ids under which the editor keeps
/// its definition and hover text once they are known.
pub struct Info {
    pub path: String,
    pub position: Position,
    pub definition_id: Option<usize>,
    pub hover_id: Option<usize>,
}

impl Clone for Info {
    fn clone(&self) -> (r: Self)
        ensures
            r == *self,
    {
        Info {
            path: self.path.clone(),
            position: self.position,
            definition_id: self.definition_id,
            hover_id: self.hover_id,
        }
    }
}

/// What kind of Rust item an identifier names.
#[derive(Clone, Copy, Debug, PartialEq, Eq, Structural)]
pub enum IdentifierType {
    Component,
    PaxType,
    Enum,
    Property,
    Method,
    EnumVariant,
}

/// A property of a struct, with its Rust type.
pub struct PropertyInfo {
    pub identifier: String,
    pub rust_type: String,
    pub info: Info,
}

/// A method of a struct.
pub struct MethodInfo {
    pub identifier: String,
    pub info: Info,
}

/// A variant of an enum.
pub struct VariantInfo {
    pub identifier: String,
    pub info: Info,
}

impl Clone for PropertyInfo {
    fn clone(&self) -> (r: Self)
        ensures
            r == *self,
    {
        PropertyInfo { identifier: self.identifier.clone(), rust_type: self.rust_type.clone(), info: self.info.clone() }
    }
}

impl Clone for MethodInfo {
    fn clone(&self) -> (r: Self)
        ensures
            r == *self,
    {
        MethodInfo { identifier: self.identifier.clone(), info: self.info.clone() }
    }
}

impl Clone for VariantInfo {
    fn clone(&self) -> (r: Self)
        ensures
            r == *self,
    {
        VariantInfo { identifier: self.identifier.clone(), info: self.info.clone() }
    }
}

/// An indexed Rust item and its members.
pub struct IdentifierInfo {
    pub ty: IdentifierType,
    pub identifier: String,
    pub info: Info,
    pub properties: Vec<PropertyInfo>,
    pub methods: Vec<MethodInfo>,
    pub variants: Vec<VariantInfo>,
}

impl Clone for IdentifierInfo {
    fn clone(&self) -> (r: Self)
        ensures
            r.ty == self.ty,
            r.identifier == self.identifier,
            r.info == self.info,
            r.properties@ == self.properties@,
            r.methods@ == self.methods@,
            r.variants@ == self.variants@,
    {
        let properties = self.properties.clone();
        let methods = self.methods.clone();
        let variants = self.variants.clone();
        proof {
            assert(properties@ =~= self.properties@);
            assert(methods@ =~= self.methods@);
            assert(variants@ =~= self.variants@);
        }
        IdentifierInfo {
            ty: self.ty,
            identifier: self.identifier.clone(),
            info: self.info.clone(),
            properties,
            methods,
            variants,
        }
    }
}

#[verifier::external_type_specification]
#[verifier::external_body]
#[verifier::reject_recursive_types(K)]
#[verifier::reject_recursive_types(V)]
#[verifier::reject_recursive_types(S)]
pub struct ExDashMap<K, V, S>(DashMap<K, V, S>);

/// The indexed items of a component, by identifier.
pub type IdentifierMap = DashMap<String, IdentifierInfo>;

/// What an identifier map holds: the item for each identifier. A `DashMap`
/// can be written through a shared reference too, so the library reads and
/// writes a map only through `&mut`, which keeps every other holder out;
/// the wrappers below state what they do to this name over `old` and
/// `final`.
pub uninterp spec fn identifier_map_contents(map: DashMap<String, IdentifierInfo>) -> Map<
    Seq<char>,
    IdentifierInfo,
>;

/// The item that `contents` holds for `key`, if any.
pub open spec fn item_for(contents: Map<Seq<char>, IdentifierInfo>, key: Seq<char>) -> Option<
    IdentifierInfo,
> {
    if contents.dom().contains(key) {
        Some(contents[key])
    } else {
        None
    }
}

/// The item that `map` holds for `key`, if any.
pub open spec fn lookup(map: IdentifierMap, key: Seq<char>) -> Option<IdentifierInfo> {
    item_for(identifier_map_contents(map), key)
}

/// `DashMap::get`: a copy of the item held for `key`, if any; taken
/// through `&mut`, so that nothing else writes the map meanwhile. The map
/// keeps what it holds.
#[verifier::external_body]
pub(crate) fn map_get(map: &mut IdentifierMap, key: &String) -> (r: Option<IdentifierInfo>)
    ensures
        r == lookup(*old(map), key@),
        identifier_map_contents(*final(map)) == identifier_map_contents(*old(map)),
{
    map.get(key).map(|item| item.value().clone())
}

/// `DashMap::insert`: holds `value` for `key` from now on; returns the item
/// held for `key` before, if any.
#[verifier::external_body]
pub(crate) fn map_insert(map: &mut IdentifierMap, key: String, value: IdentifierInfo) -> (r: Option<
    IdentifierInfo,
>)
    ensures
        identifier_map_contents(*final(map)) == identifier_map_contents(*old(map)).insert(
            key@,
            value,
        ),
        r == lookup(*old(map), key@),
{
    map.insert(key, value)
}

/// `DashMap::remove`: takes out the item held for `key`, if any, and returns
/// it with its key.
#[verifier::external_body]
pub(crate) fn map_remove(map: &mut IdentifierMap, key: &String) -> (r: Option<(String, IdentifierInfo)>)
    ensures
        identifier_map_contents(*final(map)) == identifier_map_contents(*old(map)).remove(key@),
        match r {
            Some((k, v)) => k@ == key@ && lookup(*old(map), key@) == Some(v),
            None => lookup(*old(map), key@) is None,
        },
{
    map.remove(key)
}

/// `l` lists what `contents` holds: each identifier once, with its item.
pub open spec fn is_listing_of(
    l: Seq<(String, IdentifierInfo)>,
    contents: Map<Seq<char>, IdentifierInfo>,
) -> bool {
    &&& forall|i: int|
        0 <= i < l.len() ==> contents.dom().contains(#[trigger] l[i].0@) && contents[l[i].0@]
            == l[i].1
    &&& forall|i: int, j: int| 0 <= i < j < l.len() ==> #[trigger] l[i].0@ != #[trigger] l[j].0@
    &&& forall|k: Seq<char>|
        contents.dom().contains(k) ==> exists|i: int| 0 <= i < l.len() && #[trigger] l[i].0@ == k
}

/// `DashMap::iter`: every identifier with a copy of its item, in the order
/// in which the map's shards hold them (which the contract leaves open);
/// taken through `&mut`, so that nothing else writes the map meanwhile. The
/// map keeps what it holds.
#[verifier::external_body]
pub(crate) fn map_entries(map: &mut IdentifierMap) -> (r: Vec<(String, IdentifierInfo)>)
    ensures
        is_listing_of(r@, identifier_map_contents(*old(map))),
        identifier_map_contents(*final(map)) == identifier_map_contents(*old(map)),
{
    map.iter().map(|e| (e.key().clone(), e.value().clone())).collect()
}

/// A Pax component: its name and the items its Rust file declares or
/// imports.
pub struct PaxComponent {
    pub component_name: String,
    pub identifier_map: IdentifierMap,
}

/// A request to learn where an indexed identifier is defined. For a member
/// (property, method, variant) `owner_identifier` names its struct or enum.
pub struct InfoRequest {
    pub identifier: String,
    pub owner_identifier: Option<String>,
    pub identifier_type: IdentifierType,
    pub info: Info,
}

/// The ids that the editor assigned to a definition and its hover text.
#[allow(non_snake_case)]
pub struct EnrichResult {
    pub getDefinition: usize,
    pub getHover: usize,
}

/// The syntax node kinds of a Pax document that name things, with the names
/// they hold; `Other` stands for every other kind.
pub enum NodeType {
    Tag { pascal_identifier: String },
    Identifier { identifier: String },
    LiteralFunction { function_name: String },
    LiteralEnumValue { enum_name: String, property_name: String },
    XoFunctionCall { struct_name: String, function_name: String },
    AttributeKeyValuePair { identifier: String },
    Other,
}

/// Something with a name by which it is looked up.
pub trait Named {
    spec fn name(&self) -> Seq<char>;

    fn name_ref(&self) -> (r: &String)
        ensures
            r@ == self.name(),
    ;
}

impl Named for PropertyInfo {
    open spec fn name(&self) -> Seq<char> {
        self.identifier@
    }

    fn name_ref(&self) -> (r: &String) {
        &self.identifier
    }
}

impl Named for MethodInfo {
    open spec fn name(&self) -> Seq<char> {
        self.identifier@
    }

    fn name_ref(&self) -> (r: &String) {
        &self.identifier
    }
}

impl Named for VariantInfo {
    open spec fn name(&self) -> Seq<char> {
        self.identifier@
    }

    fn name_ref(&self) -> (r: &String) {
        &self.identifier
    }
}

/// The first index from `i` on whose item is named `name`.
pub open spec fn first_named_from<T: Named>(items: Seq<T>, name: Seq<char>, i: int) -> Option<int>
    decreases items.len() - i,
{
    if i < 0 || i >= items.len() {
        None
    } else if items[i].name() == name {
        Some(i)
    } else {
        first_named_from(items, name, i + 1)
    }
}

/// The first index whose item is named `name`.
pub open spec fn first_named<T: Named>(items: Seq<T>, name: Seq<char>) -> Option<int> {
    first_named_from(items, name, 0)
}

/// The first item named `name`.
pub open spec fn find_named<T: Named>(items: Seq<T>, name: Seq<char>) -> Option<T> {
    match first_named(items, name) {
        Some(i) => Some(items[i]),
        None => None,
    }
}

pub(crate) proof fn lemma_first_named_from_bounds<T: Named>(items: Seq<T>, name: Seq<char>, i: int)
    ensures
        first_named_from(items, name, i) matches Some(k) ==> 0 <= i <= k < items.len()
            && items[k].name() == name,
    decreases items.len() - i,
{
    if 0 <= i < items.len() && items[i].name() != name {
        lemma_first_named_from_bounds(items, name, i + 1);
    }
}

/// The index of the first item named `name`.
pub fn position_named<T: Named>(items: &Vec<T>, name: &String) -> (r: Option<usize>)
    ensures
        match r {
            Some(k) => first_named(items@, name@) == Some(k as int),
            None => first_named(items@, name@) is None,
        },
        r matches Some(k) ==> k < items@.len() && items@[k as int].name() == name@,
{
    let mut i: usize = 0;
    while i < items.len()
        invariant
            i <= items@.len(),
            first_named(items@, name@) == first_named_from(items@, name@, i as int),
        decreases items@.len() - i,
    {
        if items[i].name_ref().eq(name) {
            proof {
                lemma_first_named_from_bounds(items@, name@, i as int);
            }
            return Some(i);
        }
        i = i + 1;
    }
    None
}

} // verus!
