use vstd::prelude::*;

use crate::bounds::{
    entries_view, normalize_bounds_idempotent, normalize_entries_idempotent, normalized, normalized_bounds,
    EnumerationValue, StringObjectBounds,
};
use crate::error::{DecodeError, DecodeErrorView};
use crate::schema::{MAX_DEPTH, childless, decodable, declared_names, fields_fail, property_names, text_of, version_of, Property, Schema};
use crate::yaml::Yaml;

verus! {

/// The version a description has when it names none.
pub const DEFAULT_VERSION: u64 = 1;

/// The properties of an object: their names, and the nodes, in declaration order.
pub struct PropertyList {
    pub property_names: Vec<String>,
    pub properties: Vec<Property>,
}

/// A compiled description before its whole-tree checks.
pub struct SourceSchema {
    pub title: String,
    pub version: u64,
    pub properties: Option<PropertyList>,
}

/// A compiled description that passed its whole-tree checks.
pub struct ValidatedSchema {
    pub version: u64,
    pub title: String,
    pub properties: Option<PropertyList>,
}

/// The names of a list, as plain text.
pub open spec fn name_views(v: Seq<String>) -> Seq<Seq<char>> {
    v.map_values(|s: String| s@)
}

/// Whether no two names of a list are the same.
pub open spec fn distinct_names(v: Seq<String>) -> bool {
    forall|i: int, j: int| 0 <= i < j < v.len() ==> v[i]@ != v[j]@
}

/// Whether no two texts of a list are the same.
pub open spec fn distinct_texts(v: Seq<Seq<char>>) -> bool {
    forall|i: int, j: int| 0 <= i < j < v.len() ==> v[i] != v[j]
}

/// Whether a property list names its properties, in order.
pub open spec fn list_consistent(l: PropertyList) -> bool {
    name_views(l.property_names@) == property_names(l.properties@)
}

impl SourceSchema {
    /// A description with no title, the default version and no properties.
    pub fn empty() -> (r: SourceSchema)
        ensures
            r.title@.len() == 0,
            r.version == DEFAULT_VERSION,
            r.properties is None,
    {
        SourceSchema { title: String::new(), version: DEFAULT_VERSION, properties: None }
    }

    /// A description with the given title and version and no properties.
    pub fn with(title: &str, version: u64) -> (r: SourceSchema)
        ensures
            r.title@ == title@,
            r.version == version,
            r.properties is None,
    {
        SourceSchema { title: title.to_string(), version, properties: None }
    }
}

fn find_duplicate(names: &Vec<String>) -> (r: Option<usize>)
    ensures
        r is None <==> distinct_names(names@),
        r matches Some(i) ==> i < names@.len(),
{
    let mut i: usize = 0;
    while i < names.len()
        invariant
            i <= names@.len(),
            forall|a: int, b: int| 0 <= a < i && a < b < names@.len() ==> names@[a]@ != names@[b]@,
        decreases names.len() - i,
    {
        let mut j: usize = i + 1;
        while j < names.len()
            invariant
                i < names@.len(),
                i + 1 <= j <= names@.len(),
                forall|a: int, b: int| 0 <= a < i && a < b < names@.len() ==> names@[a]@ != names@[b]@,
                forall|b: int| i < b < j ==> names@[i as int]@ != names@[b]@,
            decreases names.len() - j,
        {
            if names[i] == names[j] {
                return Some(i);
            }
            j = j + 1;
        }
        i = i + 1;
    }
    None
}

/// Checks a compiled description as a whole: its property names are unique.
pub fn validate(source: SourceSchema) -> (r: Result<ValidatedSchema, DecodeError>)
    ensures
        r is Ok <==> (source.properties matches Some(l) ==> distinct_names(l.property_names@)),
        r matches Ok(v) ==> v.version == source.version && v.title == source.title && v.properties
            == source.properties,
        r matches Err(e) ==> e@ is DuplicateProperty,
{
    if let Some(list) = &source.properties {
        if let Some(i) = find_duplicate(&list.property_names) {
            return Err(DecodeError::DuplicateProperty(list.property_names[i].clone()));
        }
    }
    Ok(ValidatedSchema { version: source.version, title: source.title, properties: source.properties })
}

/// The title of a compiled description: the node's, or empty.
pub open spec fn compiled_title(m: Seq<(String, Yaml)>) -> Seq<char> {
    match text_of(m, "title"@) {
        Ok(Some(t)) => t,
        _ => Seq::empty(),
    }
}

/// The version of a compiled description: the node's, or the default.
pub open spec fn compiled_version(m: Seq<(String, Yaml)>) -> u64 {
    match version_of(m) {
        Ok(Some(v)) => v as u64,
        _ => DEFAULT_VERSION,
    }
}

impl Schema {
    /// Normalizes the tree: every node's enumeration entries and string bounds, at
    /// most `MAX_DEPTH` levels deep, which is as deep as decoding goes.
    pub fn normalize(&mut self)
        ensures
            tree_normalized(*old(self), *final(self), MAX_DEPTH as nat),
    {
        self.normalize_to(MAX_DEPTH);
    }

    /// Normalizes this node and, at most `depth` levels below it, its children.
    pub fn normalize_to(&mut self, depth: u64)
        ensures
            tree_normalized(*old(self), *final(self), depth as nat),
        decreases depth, 1u64,
    {
        let mut out: Vec<EnumerationValue> = Vec::new();
        let mut i: usize = 0;
        while i < self.enumeration.len()
            invariant
                i <= self.enumeration@.len(),
                self == old(self),
                entries_view(out@) == entries_view(self.enumeration@).take(i as int).map_values(
                    |e| normalized(e),
                ),
            decreases self.enumeration.len() - i,
        {
            let n = self.enumeration[i].normalized();
            proof {
                let ev = entries_view(self.enumeration@);
                assert(entries_view(out@.push(n)) =~= entries_view(out@).push(n@));
                assert(ev.take(i + 1) =~= ev.take(i as int).push(self.enumeration@[i as int]@));
                assert(ev.take(i + 1).map_values(|e| normalized(e)) =~= ev.take(i as int).map_values(
                    |e| normalized(e),
                ).push(normalized(self.enumeration@[i as int]@)));
            }
            out.push(n);
            i = i + 1;
        }
        assert(entries_view(self.enumeration@).take(self.enumeration@.len() as int) =~= entries_view(
            self.enumeration@,
        ));
        self.enumeration = out;
        let bounds = match &self.string_bounds {
            Some(b) => Some(b.normalized()),
            None => None,
        };
        self.string_bounds = bounds;
        if depth > 0 {
            self.normalize_children(depth - 1);
        }
    }

    fn normalize_children(&mut self, depth: u64)
        ensures
            final(self).enumeration == old(self).enumeration,
            final(self).string_bounds == old(self).string_bounds,
            same_plain_fields(*old(self), *final(self)),
            property_names(final(self).properties@) == property_names(old(self).properties@),
            children_normalized(*old(self), *final(self), depth as nat),
        decreases depth, 2u64,
    {
        let mut props: Vec<Property> = Vec::new();
        std::mem::swap(&mut props, &mut self.properties);
        let ghost all = props@;
        let mut done: Vec<Property> = Vec::new();
        while props.len() > 0
            invariant
                0 <= done@.len() <= all.len(),
                props@ == all.subrange(done@.len() as int, all.len() as int),
                property_names(done@) == property_names(all.take(done@.len() as int)),
                forall|j: int|
                    0 <= j < done@.len() ==> #[trigger] tree_normalized(
                        all[j].schema,
                        done@[j].schema,
                        depth as nat,
                    ),
            decreases props.len(),
        {
            let ghost k = done@.len() as int;
            let ghost before = done@;
            let mut p = props.remove(0);
            assert(p.name == all[k].name);
            assert(p.schema == all[k].schema);
            p.schema.normalize_to(depth);
            done.push(p);
            assert(done@ == before.push(done@[k]));
            assert forall|j: int| 0 <= j < done@.len() implies #[trigger] tree_normalized(
                all[j].schema,
                done@[j].schema,
                depth as nat,
            ) by {
                if j < k {
                    assert(tree_normalized(all[j].schema, before[j].schema, depth as nat));
                }
            }
            assert(property_names(done@) =~= property_names(before).push(all[k].name@));
            assert(all.take(k + 1) =~= all.take(k).push(all[k]));
            assert(property_names(all.take(k + 1)) =~= property_names(all.take(k)).push(all[k].name@));
            assert(props@ =~= all.subrange(k + 1, all.len() as int));
        }
        assert(all.take(all.len() as int) =~= all);
        self.properties = done;
        let mut items: Vec<Schema> = Vec::new();
        std::mem::swap(&mut items, &mut self.items);
        let ghost all_items = items@;
        let mut normalized_items: Vec<Schema> = Vec::new();
        while items.len() > 0
            invariant
                0 <= normalized_items@.len() <= all_items.len(),
                items@ == all_items.subrange(normalized_items@.len() as int, all_items.len() as int),
                forall|j: int|
                    0 <= j < normalized_items@.len() ==> #[trigger] tree_normalized(
                        all_items[j],
                        normalized_items@[j],
                        depth as nat,
                    ),
            decreases items.len(),
        {
            let ghost k = normalized_items@.len() as int;
            let ghost before = normalized_items@;
            let mut item = items.remove(0);
            assert(item == all_items[k]);
            item.normalize_to(depth);
            normalized_items.push(item);
            assert forall|j: int| 0 <= j < normalized_items@.len() implies #[trigger] tree_normalized(
                all_items[j],
                normalized_items@[j],
                depth as nat,
            ) by {
                if j < k {
                    assert(tree_normalized(all_items[j], before[j], depth as nat));
                    assert(normalized_items@[j] == before[j]);
                }
            }
            assert(items@ =~= all_items.subrange(k + 1, all_items.len() as int));
        }
        self.items = normalized_items;
        let keys = match self.keys.take() {
            Some(b) => {
                let mut inner = *b;
                inner.normalize_to(depth);
                Some(Box::new(inner))
            },
            None => None,
        };
        self.keys = keys;
        let values = match self.values.take() {
            Some(b) => {
                let mut inner = *b;
                inner.normalize_to(depth);
                Some(Box::new(inner))
            },
            None => None,
        };
        self.values = values;
    }
}

/// Whether two nodes agree on every field that normalization leaves alone.
pub open spec fn same_plain_fields(a: Schema, b: Schema) -> bool {
    &&& b.version == a.version
    &&& b.mapping == a.mapping
    &&& b.schema_type == a.schema_type
    &&& b.constant == a.constant
    &&& b.default_value == a.default_value
    &&& b.formula == a.formula
    &&& b.read_only == a.read_only
    &&& b.write_only == a.write_only
    &&& b.placeholder == a.placeholder
    &&& b.hidden == a.hidden
    &&& b.additional_properties == a.additional_properties
    &&& b.separator == a.separator
    &&& b.title == a.title
    &&& b.help == a.help
    &&& b.warning == a.warning
    &&& b.description == a.description
    &&& b.max_items == a.max_items
    &&& b.min_items == a.min_items
    &&& b.unique_items == a.unique_items
    &&& b.orderable == a.orderable
    &&& b.addable == a.addable
    &&& b.removable == a.removable
    &&& b.multiple_of == a.multiple_of
    &&& b.max == a.max
    &&& b.exclusive_max == a.exclusive_max
    &&& b.min == a.min
    &&& b.exclusive_min == a.exclusive_min
    &&& b.max_length == a.max_length
    &&& b.min_length == a.min_length
    &&& b.pattern == a.pattern
    &&& b.integer_bounds == a.integer_bounds
    &&& b.boolean_bounds == a.boolean_bounds
}

/// Whether node `b` is node `a` with its own entries and string bounds normalized.
pub open spec fn node_normalized(a: Schema, b: Schema) -> bool {
    &&& entries_view(b.enumeration@) == entries_view(a.enumeration@).map_values(|e| normalized(e))
    &&& match a.string_bounds {
        Some(x) => b.string_bounds matches Some(n) && n@ == normalized_bounds(x@),
        None => b.string_bounds is None,
    }
    &&& same_plain_fields(a, b)
    &&& property_names(b.properties@) == property_names(a.properties@)
    &&& b.items@.len() == a.items@.len()
    &&& (a.keys is Some <==> b.keys is Some)
    &&& (a.values is Some <==> b.values is Some)
}

/// Whether tree `b` is tree `a` normalized down to `depth` levels below its root.
pub open spec fn tree_normalized(a: Schema, b: Schema, depth: nat) -> bool
    decreases depth,
{
    &&& node_normalized(a, b)
    &&& b.properties@.len() == a.properties@.len()
    &&& if depth > 0 {
        &&& forall|i: int|
            0 <= i < a.properties@.len() ==> tree_normalized(
                #[trigger] a.properties@[i].schema,
                b.properties@[i].schema,
                (depth - 1) as nat,
            )
        &&& forall|i: int|
            0 <= i < a.items@.len() ==> tree_normalized(#[trigger] a.items@[i], b.items@[i], (depth - 1) as nat)
        &&& (a.keys matches Some(k) ==> tree_normalized(*k, *b.keys->0, (depth - 1) as nat))
        &&& (a.values matches Some(v) ==> tree_normalized(*v, *b.values->0, (depth - 1) as nat))
    } else {
        true
    }
}

/// Whether the children of `b` are those of `a`, each normalized `depth` levels deep.
pub open spec fn children_normalized(a: Schema, b: Schema, depth: nat) -> bool {
    &&& b.properties@.len() == a.properties@.len()
    &&& b.items@.len() == a.items@.len()
    &&& (a.keys is Some <==> b.keys is Some)
    &&& (a.values is Some <==> b.values is Some)
    &&& forall|i: int|
        0 <= i < a.properties@.len() ==> tree_normalized(
            #[trigger] a.properties@[i].schema,
            b.properties@[i].schema,
            depth,
        )
    &&& forall|i: int| 0 <= i < a.items@.len() ==> tree_normalized(#[trigger] a.items@[i], b.items@[i], depth)
    &&& (a.keys matches Some(k) ==> tree_normalized(*k, *b.keys->0, depth))
    &&& (a.values matches Some(v) ==> tree_normalized(*v, *b.values->0, depth))
}

/// Whether two string bounds are the same as plain values.
pub open spec fn same_bounds(a: Option<StringObjectBounds>, b: Option<StringObjectBounds>) -> bool {
    match (a, b) {
        (Some(x), Some(y)) => x@ == y@,
        (None, None) => true,
        _ => false,
    }
}

/// Whether two trees are the same, node by node, down to `depth` levels below the
/// root: entries and bounds as plain values, every other field equal.
pub open spec fn same_normal_form(b: Schema, c: Schema, depth: nat) -> bool
    decreases depth,
{
    &&& entries_view(c.enumeration@) == entries_view(b.enumeration@)
    &&& same_bounds(b.string_bounds, c.string_bounds)
    &&& same_plain_fields(b, c)
    &&& property_names(c.properties@) == property_names(b.properties@)
    &&& if depth > 0 {
        &&& c.items@.len() == b.items@.len()
        &&& forall|i: int|
            0 <= i < b.properties@.len() ==> same_normal_form(
                #[trigger] b.properties@[i].schema,
                c.properties@[i].schema,
                (depth - 1) as nat,
            )
        &&& forall|i: int|
            0 <= i < b.items@.len() ==> same_normal_form(#[trigger] b.items@[i], c.items@[i], (depth - 1) as nat)
        &&& (b.keys matches Some(k) ==> c.keys is Some && same_normal_form(*k, *c.keys->0, (depth - 1) as nat))
        &&& (b.values matches Some(v) ==> c.values is Some && same_normal_form(*v, *c.values->0, (depth - 1) as nat))
    } else {
        true
    }
}

/// Normalizing a normalized tree changes nothing in it, at any node.
pub proof fn normalize_tree_idempotent(a: Schema, b: Schema, c: Schema, depth: nat)
    requires
        tree_normalized(a, b, depth),
        tree_normalized(b, c, depth),
    ensures
        same_normal_form(b, c, depth),
    decreases depth,
{
    normalize_entries_idempotent(entries_view(a.enumeration@));
    if let Some(x) = a.string_bounds {
        normalize_bounds_idempotent(x@);
    }
    if depth > 0 {
        let d = (depth - 1) as nat;
        assert forall|i: int| 0 <= i < b.properties@.len() implies same_normal_form(
            #[trigger] b.properties@[i].schema,
            c.properties@[i].schema,
            d,
        ) by {
            assert(tree_normalized(a.properties@[i].schema, b.properties@[i].schema, d));
            assert(tree_normalized(b.properties@[i].schema, c.properties@[i].schema, d));
            normalize_tree_idempotent(a.properties@[i].schema, b.properties@[i].schema, c.properties@[i].schema, d);
        }
        assert forall|i: int| 0 <= i < b.items@.len() implies same_normal_form(
            #[trigger] b.items@[i],
            c.items@[i],
            d,
        ) by {
            assert(tree_normalized(a.items@[i], b.items@[i], d));
            assert(tree_normalized(b.items@[i], c.items@[i], d));
            normalize_tree_idempotent(a.items@[i], b.items@[i], c.items@[i], d);
        }
        if let Some(k) = b.keys {
            normalize_tree_idempotent(*a.keys->0, *k, *c.keys->0, d);
        }
        if let Some(v) = b.values {
            normalize_tree_idempotent(*a.values->0, *v, *c.values->0, d);
        }
    }
}

/// Builds the compiled form of a node: its version, its title and its properties.
pub fn lower(schema: Schema) -> (r: SourceSchema)
    ensures
        r.version == match schema.version {
            Some(v) => v as u64,
            None => DEFAULT_VERSION,
        },
        r.title@ == match schema.title {
            Some(t) => t@,
            None => Seq::empty(),
        },
        r.properties is None <==> schema.properties@.len() == 0,
        r.properties matches Some(l) ==> list_consistent(l) && property_names(l.properties@)
            == property_names(schema.properties@),
{
    let version = match schema.version {
        Some(v) => v as u64,
        None => DEFAULT_VERSION,
    };
    let title = match &schema.title {
        Some(t) => t.clone(),
        None => String::new(),
    };
    if schema.properties.len() == 0 {
        return SourceSchema { title, version, properties: None };
    }
    let mut names: Vec<String> = Vec::new();
    let mut i: usize = 0;
    while i < schema.properties.len()
        invariant
            i <= schema.properties@.len(),
            name_views(names@) == property_names(schema.properties@).take(i as int),
        decreases schema.properties.len() - i,
    {
        let n = schema.properties[i].name.clone();
        proof {
            assert(name_views(names@.push(n)) =~= name_views(names@).push(n@));
            assert(property_names(schema.properties@).take(i + 1) =~= property_names(
                schema.properties@,
            ).take(i as int).push(schema.properties@[i as int].name@));
        }
        names.push(n);
        i = i + 1;
    }
    assert(property_names(schema.properties@).take(schema.properties@.len() as int) =~= property_names(
        schema.properties@,
    ));
    SourceSchema {
        title,
        version,
        properties: Some(PropertyList { property_names: names, properties: schema.properties }),
    }
}

/// Whether `v` carries the version, the title and the property names that the
/// description `y` declares.
pub open spec fn compiled_from(v: ValidatedSchema, y: Yaml) -> bool {
    &&& y is Mapping
    &&& v.version == compiled_version(y->Mapping_0@)
    &&& v.title@ == compiled_title(y->Mapping_0@)
    &&& v.properties is None <==> declared_names(y->Mapping_0@).len() == 0
    &&& v.properties matches Some(l) ==> name_views(l.property_names@) == declared_names(y->Mapping_0@)
        && list_consistent(l)
}

/// Compiles a description: decode, normalize, lower, then check the whole.
pub fn compile(y: Yaml) -> (r: Result<ValidatedSchema, DecodeError>)
    ensures
        !(y is Mapping) ==> (r matches Err(e) && e@ == DecodeErrorView::NotAMapping),
        y is Mapping && fields_fail(y->Mapping_0@) ==> r is Err,
        y is Mapping && !fields_fail(y->Mapping_0@) && childless(y->Mapping_0@) ==> r is Ok,
        r is Ok <==> decodable(y, MAX_DEPTH as nat) && distinct_texts(declared_names(y->Mapping_0@)),
        r matches Ok(v) ==> compiled_from(v, y),
{
    let mut schema = match Schema::from_yaml(y) {
        Ok(s) => s,
        Err(e) => return Err(e),
    };
    schema.normalize();
    assert(property_names(schema.properties@).len() == schema.properties@.len());
    let source = lower(schema);
    proof {
        if source.properties is Some {
            let v = source.properties->0.property_names@;
            let nv = name_views(v);
            if distinct_names(v) {
                assert forall|i: int, j: int| 0 <= i < j < nv.len() implies nv[i] != nv[j] by {
                    assert(nv[i] == v[i]@);
                    assert(nv[j] == v[j]@);
                }
            }
            if distinct_texts(nv) {
                assert forall|i: int, j: int| 0 <= i < j < v.len() implies v[i]@ != v[j]@ by {
                    assert(nv[i] == v[i]@);
                    assert(nv[j] == v[j]@);
                }
            }
        }
    }
    validate(source)
}

} // verus!
