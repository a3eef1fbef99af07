use vstd::prelude::*;

use crate::bounds::{
    boolean_bounds_of, count_of, deserialize_boolean_object_bounds, deserialize_integer_bounds,
    deserialize_count, deserialize_enumeration_values, deserialize_integer, deserialize_pattern,
    deserialize_string_object_bounds, entries_view, enum_of, integer_bounds_of, integer_of, opt_view,
    pattern_of, scalar_text, scalar_value, string_bounds_of, string_bounds_result, BooleanObjectBounds, EntryView,
    EnumerationValue, IntegerObjectBounds, StringObjectBounds,
};
use crate::error::{view_err, DecodeError, DecodeErrorView};
use crate::yaml::{get, has_key, lookup, lookup_without_first, take_entry, without_first, Mapping, Yaml};

verus! {

/// How deep a description may nest before decoding gives up.
pub const MAX_DEPTH: u64 = 64;

/// The declared kind of a schema node.
#[derive(Clone, Copy, PartialEq, Eq, Structural, Debug)]
pub enum PrimitiveType {
    Object,
    Array,
    String,
    Integer,
    Number,
    Boolean,
    Dictionary,
    StringList,
}

/// The kind that a `type` keyword names.
pub open spec fn kind_named(s: Seq<char>) -> Option<PrimitiveType> {
    if s == "object"@ {
        Some(PrimitiveType::Object)
    } else if s == "array"@ {
        Some(PrimitiveType::Array)
    } else if s == "string"@ {
        Some(PrimitiveType::String)
    } else if s == "integer"@ {
        Some(PrimitiveType::Integer)
    } else if s == "number"@ {
        Some(PrimitiveType::Number)
    } else if s == "boolean"@ {
        Some(PrimitiveType::Boolean)
    } else if s == "map"@ {
        Some(PrimitiveType::Dictionary)
    } else if s == "stringlist"@ {
        Some(PrimitiveType::StringList)
    } else {
        None
    }
}

/// The `type` keyword: a kind name; a node without one is an object.
pub open spec fn type_of(m: Seq<(String, Yaml)>) -> Result<PrimitiveType, DecodeErrorView> {
    match lookup(m, "type"@) {
        None => Ok(PrimitiveType::Object),
        Some(Yaml::Str(s)) => match kind_named(s@) {
            Some(k) => Ok(k),
            None => Err(DecodeErrorView::UnknownType(s@)),
        },
        Some(_) => Err(DecodeErrorView::WrongShape("type"@)),
    }
}

/// A text keyword: absent, or a string.
pub open spec fn text_of(m: Seq<(String, Yaml)>, key: Seq<char>) -> Result<Option<Seq<char>>, DecodeErrorView> {
    match lookup(m, key) {
        None => Ok(None),
        Some(Yaml::Str(s)) => Ok(Some(s@)),
        Some(_) => Err(DecodeErrorView::WrongShape(key)),
    }
}

/// The `formula` keyword: absent, or a string, boolean or number as its text.
pub open spec fn formula_of(m: Seq<(String, Yaml)>) -> Result<Option<Seq<char>>, DecodeErrorView> {
    match lookup(m, "formula"@) {
        None => Ok(None),
        Some(Yaml::Null) => Err(DecodeErrorView::WrongShape("formula"@)),
        Some(y) => match scalar_value(y) {
            Some(v) => Ok(v),
            None => Err(DecodeErrorView::WrongShape("formula"@)),
        },
    }
}

/// A flag keyword: absent means false.
pub open spec fn flag_of(m: Seq<(String, Yaml)>, key: Seq<char>) -> Result<bool, DecodeErrorView> {
    match lookup(m, key) {
        None => Ok(false),
        Some(Yaml::Bool(b)) => Ok(b),
        Some(_) => Err(DecodeErrorView::WrongShape(key)),
    }
}

/// A tri-state flag keyword: absent means undetermined.
pub open spec fn tri_flag_of(m: Seq<(String, Yaml)>, key: Seq<char>) -> Result<Option<bool>, DecodeErrorView> {
    match lookup(m, key) {
        None => Ok(None),
        Some(Yaml::Bool(b)) => Ok(Some(b)),
        Some(_) => Err(DecodeErrorView::WrongShape(key)),
    }
}

/// The `version` keyword: an integer from 0 to 255.
pub open spec fn version_of(m: Seq<(String, Yaml)>) -> Result<Option<u8>, DecodeErrorView> {
    match lookup(m, "version"@) {
        None => Ok(None),
        Some(Yaml::Int(i)) => if 0 <= i <= 255 {
            Ok(Some(i as u8))
        } else {
            Err(DecodeErrorView::NotAnInteger("version"@))
        },
        Some(_) => Err(DecodeErrorView::NotAnInteger("version"@)),
    }
}

/// The `enum` keyword of a node: its entries, none when absent or empty.
pub open spec fn enumeration_of(m: Seq<(String, Yaml)>) -> Result<Seq<EntryView>, DecodeErrorView> {
    match enum_of(m) {
        Err(e) => Err(e),
        Ok(Some(es)) => Ok(es),
        Ok(None) => Ok(Seq::empty()),
    }
}

/// A named child node of an object.
pub struct Property {
    pub name: String,
    pub schema: Schema,
}

/// One node of a schema description.
pub struct Schema {
    pub version: Option<u8>,
    pub mapping: Option<Yaml>,
    pub schema_type: PrimitiveType,
    pub constant: Option<Yaml>,
    pub default_value: Option<Yaml>,
    pub enumeration: Vec<EnumerationValue>,
    pub formula: Option<String>,
    pub read_only: bool,
    pub write_only: bool,
    pub placeholder: Option<String>,
    pub hidden: bool,
    pub properties: Vec<Property>,
    pub keys: Option<Box<Schema>>,
    pub values: Option<Box<Schema>>,
    pub additional_properties: bool,
    pub separator: Option<String>,
    pub title: Option<String>,
    pub help: Option<String>,
    pub warning: Option<String>,
    pub description: Option<String>,
    pub items: Vec<Schema>,
    pub max_items: Option<u64>,
    pub min_items: Option<u64>,
    pub unique_items: bool,
    pub orderable: Option<bool>,
    pub addable: Option<bool>,
    pub removable: Option<bool>,
    pub multiple_of: Option<i64>,
    pub max: Option<i64>,
    pub exclusive_max: Option<i64>,
    pub min: Option<i64>,
    pub exclusive_min: Option<i64>,
    pub max_length: Option<u64>,
    pub min_length: Option<u64>,
    pub pattern: Option<String>,
    pub string_bounds: Option<StringObjectBounds>,
    pub integer_bounds: Option<IntegerObjectBounds>,
    pub boolean_bounds: Option<BooleanObjectBounds>,
}


pub open spec fn holds<T>(r: Result<T, DecodeErrorView>, v: T) -> bool {
    r == Ok::<T, DecodeErrorView>(v)
}

/// Whether a kind reads the string bounds grammar.
pub open spec fn reads_string_bounds(k: PrimitiveType) -> bool {
    k == PrimitiveType::String || k == PrimitiveType::StringList
}

/// Whether a kind reads the integer bounds grammar.
pub open spec fn reads_integer_bounds(k: PrimitiveType) -> bool {
    k == PrimitiveType::Integer || k == PrimitiveType::Number
}

/// The plain keywords of a node, each as the node holds it.
pub open spec fn fields_match(s: Schema, m: Seq<(String, Yaml)>) -> bool {
    &&& holds(version_of(m), s.version)
    &&& holds(type_of(m), s.schema_type)
    &&& holds(enumeration_of(m), entries_view(s.enumeration@))
    &&& holds(formula_of(m), opt_view(s.formula))
    &&& holds(text_of(m, "placeholder"@), opt_view(s.placeholder))
    &&& holds(text_of(m, "separator"@), opt_view(s.separator))
    &&& holds(text_of(m, "title"@), opt_view(s.title))
    &&& holds(text_of(m, "help"@), opt_view(s.help))
    &&& holds(text_of(m, "warning"@), opt_view(s.warning))
    &&& holds(text_of(m, "description"@), opt_view(s.description))
    &&& holds(flag_of(m, "readOnly"@), s.read_only)
    &&& holds(flag_of(m, "writeOnly"@), s.write_only)
    &&& holds(flag_of(m, "hidden"@), s.hidden)
    &&& holds(flag_of(m, "additionalProperties"@), s.additional_properties)
    &&& holds(flag_of(m, "uniqueItems"@), s.unique_items)
    &&& holds(tri_flag_of(m, "orderable"@), s.orderable)
    &&& holds(tri_flag_of(m, "addable"@), s.addable)
    &&& holds(tri_flag_of(m, "removable"@), s.removable)
    &&& holds(count_of(m, "maxItems"@), s.max_items)
    &&& holds(count_of(m, "minItems"@), s.min_items)
    &&& holds(count_of(m, "maxLength"@), s.max_length)
    &&& holds(count_of(m, "minLength"@), s.min_length)
    &&& holds(integer_of(m, "multipleOf"@), s.multiple_of)
    &&& holds(integer_of(m, "max"@), s.max)
    &&& holds(integer_of(m, "exclusiveMax"@), s.exclusive_max)
    &&& holds(integer_of(m, "min"@), s.min)
    &&& holds(integer_of(m, "exclusiveMin"@), s.exclusive_min)
    &&& holds(pattern_of(m), opt_view(s.pattern))
    &&& if reads_string_bounds(s.schema_type) {
        string_bounds_of(m) == string_bounds_result(Ok(s.string_bounds))
    } else {
        s.string_bounds is None
    }
    &&& if reads_integer_bounds(s.schema_type) {
        holds(integer_bounds_of(m), s.integer_bounds)
    } else {
        s.integer_bounds is None
    }
    &&& if s.schema_type == PrimitiveType::Boolean {
        holds(boolean_bounds_of(m), s.boolean_bounds)
    } else {
        s.boolean_bounds is None
    }
}

/// Whether some plain keyword of a node, or the bounds of its kind, fail to decode.
pub open spec fn fields_fail(m: Seq<(String, Yaml)>) -> bool {
    ||| version_of(m) is Err
    ||| type_of(m) is Err
    ||| enumeration_of(m) is Err
    ||| formula_of(m) is Err
    ||| text_of(m, "placeholder"@) is Err
    ||| text_of(m, "separator"@) is Err
    ||| text_of(m, "title"@) is Err
    ||| text_of(m, "help"@) is Err
    ||| text_of(m, "warning"@) is Err
    ||| text_of(m, "description"@) is Err
    ||| flag_of(m, "readOnly"@) is Err
    ||| flag_of(m, "writeOnly"@) is Err
    ||| flag_of(m, "hidden"@) is Err
    ||| flag_of(m, "additionalProperties"@) is Err
    ||| flag_of(m, "uniqueItems"@) is Err
    ||| tri_flag_of(m, "orderable"@) is Err
    ||| tri_flag_of(m, "addable"@) is Err
    ||| tri_flag_of(m, "removable"@) is Err
    ||| count_of(m, "maxItems"@) is Err
    ||| count_of(m, "minItems"@) is Err
    ||| count_of(m, "maxLength"@) is Err
    ||| count_of(m, "minLength"@) is Err
    ||| integer_of(m, "multipleOf"@) is Err
    ||| integer_of(m, "max"@) is Err
    ||| integer_of(m, "exclusiveMax"@) is Err
    ||| integer_of(m, "min"@) is Err
    ||| integer_of(m, "exclusiveMin"@) is Err
    ||| pattern_of(m) is Err
    ||| (type_of(m) matches Ok(k) && reads_string_bounds(k) && string_bounds_of(m) is Err)
    ||| (type_of(m) matches Ok(k) && reads_integer_bounds(k) && integer_bounds_of(m) is Err)
    ||| (type_of(m) == Ok::<PrimitiveType, DecodeErrorView>(PrimitiveType::Boolean) && boolean_bounds_of(m) is Err)
}

/// Whether a node decodes, with its children, at most `depth` levels deep: each
/// node is a mapping whose own keywords decode, and each keyword that holds
/// children has the right shape.
pub open spec fn decodable(y: Yaml, depth: nat) -> bool
    decreases depth,
{
    if depth == 0 {
        false
    } else {
        let d = (depth - 1) as nat;
        match y {
            Yaml::Mapping(m) => {
                &&& !fields_fail(m@)
                &&& match lookup(m@, "properties"@) {
                    None => true,
                    Some(Yaml::Mapping(pm)) => forall|i: int| 0 <= i < pm@.len() ==> decodable(#[trigger] pm@[i].1, d),
                    Some(_) => false,
                }
                &&& match lookup(m@, "keys"@) {
                    None => true,
                    Some(k) => decodable(k, d),
                }
                &&& match lookup(m@, "values"@) {
                    None => true,
                    Some(v) => decodable(v, d),
                }
                &&& match lookup(m@, "items"@) {
                    None => true,
                    Some(Yaml::Mapping(im)) => decodable(Yaml::Mapping(im), d),
                    Some(Yaml::Sequence(v)) => forall|i: int| 0 <= i < v@.len() ==> decodable(#[trigger] v@[i], d),
                    Some(_) => false,
                }
            },
            _ => false,
        }
    }
}

/// The values that a node keeps as written: `const`, `default` and `mapping`, and
/// whether it has key and value schemas.
pub open spec fn raw_values_match(s: Schema, m: Seq<(String, Yaml)>) -> bool {
    &&& s.constant == lookup(m, "const"@)
    &&& s.default_value == lookup(m, "default"@)
    &&& s.mapping == lookup(m, "mapping"@)
    &&& (s.keys is Some <==> has_key(m, "keys"@))
    &&& (s.values is Some <==> has_key(m, "values"@))
}

/// Whether `s` is what node `y` decodes to, children included, at most `depth`
/// levels deep.
pub open spec fn decoded_from(s: Schema, y: Yaml, depth: nat) -> bool
    decreases depth,
{
    if depth == 0 {
        false
    } else {
        let d = (depth - 1) as nat;
        match y {
            Yaml::Mapping(m) => {
                &&& fields_match(s, m@)
                &&& raw_values_match(s, m@)
                &&& property_names(s.properties@) == declared_names(m@)
                &&& match lookup(m@, "properties"@) {
                    Some(Yaml::Mapping(pm)) => s.properties@.len() == pm@.len() && forall|i: int|
                        0 <= i < pm@.len() ==> decoded_from(#[trigger] s.properties@[i].schema, pm@[i].1, d),
                    _ => s.properties@.len() == 0,
                }
                &&& (lookup(m@, "keys"@) matches Some(k) ==> s.keys is Some && decoded_from(*s.keys->0, k, d))
                &&& (lookup(m@, "values"@) matches Some(v) ==> s.values is Some && decoded_from(*s.values->0, v, d))
                &&& match lookup(m@, "items"@) {
                    None => s.items@.len() == 0,
                    Some(Yaml::Mapping(im)) => s.items@.len() == 1 && decoded_from(s.items@[0], Yaml::Mapping(im), d),
                    Some(Yaml::Sequence(v)) => s.items@.len() == v@.len() && forall|i: int|
                        0 <= i < v@.len() ==> decoded_from(#[trigger] s.items@[i], v@[i], d),
                    Some(_) => false,
                }
            },
            _ => false,
        }
    }
}

/// Whether a node has none of the keywords that hold child nodes.
pub open spec fn childless(m: Seq<(String, Yaml)>) -> bool {
    !has_key(m, "properties"@) && !has_key(m, "keys"@) && !has_key(m, "values"@) && !has_key(m, "items"@)
}

fn text_is(s: &String, lit: &str) -> (r: bool)
    ensures
        r == (s@ == lit@),
{
    *s == lit.to_string()
}

fn kind_from_name(s: &String) -> (r: Option<PrimitiveType>)
    ensures
        r == kind_named(s@),
{
    if text_is(s, "object") {
        Some(PrimitiveType::Object)
    } else if text_is(s, "array") {
        Some(PrimitiveType::Array)
    } else if text_is(s, "string") {
        Some(PrimitiveType::String)
    } else if text_is(s, "integer") {
        Some(PrimitiveType::Integer)
    } else if text_is(s, "number") {
        Some(PrimitiveType::Number)
    } else if text_is(s, "boolean") {
        Some(PrimitiveType::Boolean)
    } else if text_is(s, "map") {
        Some(PrimitiveType::Dictionary)
    } else if text_is(s, "stringlist") {
        Some(PrimitiveType::StringList)
    } else {
        None
    }
}

fn read_type(m: &Mapping) -> (r: Result<PrimitiveType, DecodeError>)
    ensures
        view_err(r) == type_of(m@),
{
    match get(m, "type") {
        None => Ok(PrimitiveType::Object),
        Some(Yaml::Str(s)) => match kind_from_name(s) {
            Some(k) => Ok(k),
            None => Err(DecodeError::UnknownType(s.clone())),
        },
        Some(_) => Err(DecodeError::WrongShape("type".to_string())),
    }
}

fn read_text(m: &Mapping, key: &str) -> (r: Result<Option<String>, DecodeError>)
    ensures
        match r {
            Ok(v) => holds(text_of(m@, key@), opt_view(v)),
            Err(e) => text_of(m@, key@) == Err::<Option<Seq<char>>, DecodeErrorView>(e@),
        },
{
    match get(m, key) {
        None => Ok(None),
        Some(Yaml::Str(s)) => Ok(Some(s.clone())),
        Some(_) => Err(DecodeError::WrongShape(key.to_string())),
    }
}

fn read_formula(m: &Mapping) -> (r: Result<Option<String>, DecodeError>)
    ensures
        match r {
            Ok(v) => holds(formula_of(m@), opt_view(v)),
            Err(e) => formula_of(m@) == Err::<Option<Seq<char>>, DecodeErrorView>(e@),
        },
{
    match get(m, "formula") {
        None => Ok(None),
        Some(Yaml::Null) => Err(DecodeError::WrongShape("formula".to_string())),
        Some(y) => match scalar_text(y) {
            Some(v) => Ok(v),
            None => Err(DecodeError::WrongShape("formula".to_string())),
        },
    }
}

fn read_flag(m: &Mapping, key: &str) -> (r: Result<bool, DecodeError>)
    ensures
        view_err(r) == flag_of(m@, key@),
{
    match get(m, key) {
        None => Ok(false),
        Some(Yaml::Bool(b)) => Ok(*b),
        Some(_) => Err(DecodeError::WrongShape(key.to_string())),
    }
}

fn read_tri_flag(m: &Mapping, key: &str) -> (r: Result<Option<bool>, DecodeError>)
    ensures
        view_err(r) == tri_flag_of(m@, key@),
{
    match get(m, key) {
        None => Ok(None),
        Some(Yaml::Bool(b)) => Ok(Some(*b)),
        Some(_) => Err(DecodeError::WrongShape(key.to_string())),
    }
}

fn read_version(m: &Mapping) -> (r: Result<Option<u8>, DecodeError>)
    ensures
        view_err(r) == version_of(m@),
{
    match get(m, "version") {
        None => Ok(None),
        Some(Yaml::Int(i)) => if 0 <= *i && *i <= 255 {
            Ok(Some(*i as u8))
        } else {
            Err(DecodeError::NotAnInteger("version".to_string()))
        },
        Some(_) => Err(DecodeError::NotAnInteger("version".to_string())),
    }
}


impl Schema {
    /// Decodes a schema description, nesting at most `MAX_DEPTH` levels deep.
    pub fn from_yaml(y: Yaml) -> (r: Result<Schema, DecodeError>)
        ensures
            !(y is Mapping) ==> (r matches Err(e) && e@ == DecodeErrorView::NotAMapping),
            r is Ok ==> y is Mapping && fields_match(r->Ok_0, y->Mapping_0@),
            r is Ok ==> property_names(r->Ok_0.properties@) == declared_names(y->Mapping_0@),
            y is Mapping && fields_fail(y->Mapping_0@) ==> r is Err,
            y is Mapping && !fields_fail(y->Mapping_0@) && childless(y->Mapping_0@) ==> r is Ok,
            r is Ok <==> decodable(y, MAX_DEPTH as nat),
            r is Ok ==> raw_values_match(r->Ok_0, y->Mapping_0@),
            r matches Ok(s) ==> decoded_from(s, y, MAX_DEPTH as nat),
    {
        Schema::decode(y, MAX_DEPTH)
    }

    /// Decodes a node and, at most `depth` levels deep, its children.
    #[verifier::spinoff_prover]
    #[verifier::rlimit(80)]
    pub fn decode(y: Yaml, depth: u64) -> (r: Result<Schema, DecodeError>)
        ensures
            !(y is Mapping) ==> (r matches Err(e) && e@ == DecodeErrorView::NotAMapping),
            depth == 0 ==> r is Err,
            r is Ok ==> y is Mapping && fields_match(r->Ok_0, y->Mapping_0@),
            r is Ok ==> property_names(r->Ok_0.properties@) == declared_names(y->Mapping_0@),
            y is Mapping && fields_fail(y->Mapping_0@) ==> r is Err,
            y is Mapping && depth > 0 && !fields_fail(y->Mapping_0@) && childless(y->Mapping_0@) ==> r is Ok,
            r is Ok <==> decodable(y, depth as nat),
            r is Ok ==> raw_values_match(r->Ok_0, y->Mapping_0@),
            r matches Ok(s) ==> decoded_from(s, y, depth as nat),
        decreases depth, 1u64,
    {
        let mut m = match y {
            Yaml::Mapping(m) => m,
            _ => return Err(DecodeError::NotAMapping),
        };
        if depth == 0 {
            return Err(DecodeError::TooDeep);
        }
        let version = match read_version(&m) {
            Ok(v) => v,
            Err(e) => return Err(e),
        };
        let schema_type = match read_type(&m) {
            Ok(v) => v,
            Err(e) => return Err(e),
        };
        let enumeration = match deserialize_enumeration_values(&m) {
            Ok(Some(v)) => v,
            Ok(None) => Vec::new(),
            Err(e) => return Err(e),
        };
        assert(entries_view(enumeration@) == enumeration_of(m@)->Ok_0);
        let formula = match read_formula(&m) {
            Ok(v) => v,
            Err(e) => return Err(e),
        };
        let placeholder = match read_text(&m, "placeholder") {
            Ok(v) => v,
            Err(e) => return Err(e),
        };
        let separator = match read_text(&m, "separator") {
            Ok(v) => v,
            Err(e) => return Err(e),
        };
        let title = match read_text(&m, "title") {
            Ok(v) => v,
            Err(e) => return Err(e),
        };
        let help = match read_text(&m, "help") {
            Ok(v) => v,
            Err(e) => return Err(e),
        };
        let warning = match read_text(&m, "warning") {
            Ok(v) => v,
            Err(e) => return Err(e),
        };
        let description = match read_text(&m, "description") {
            Ok(v) => v,
            Err(e) => return Err(e),
        };
        let read_only = match read_flag(&m, "readOnly") {
            Ok(v) => v,
            Err(e) => return Err(e),
        };
        let write_only = match read_flag(&m, "writeOnly") {
            Ok(v) => v,
            Err(e) => return Err(e),
        };
        let hidden = match read_flag(&m, "hidden") {
            Ok(v) => v,
            Err(e) => return Err(e),
        };
        let additional_properties = match read_flag(&m, "additionalProperties") {
            Ok(v) => v,
            Err(e) => return Err(e),
        };
        let unique_items = match read_flag(&m, "uniqueItems") {
            Ok(v) => v,
            Err(e) => return Err(e),
        };
        let orderable = match read_tri_flag(&m, "orderable") {
            Ok(v) => v,
            Err(e) => return Err(e),
        };
        let addable = match read_tri_flag(&m, "addable") {
            Ok(v) => v,
            Err(e) => return Err(e),
        };
        let removable = match read_tri_flag(&m, "removable") {
            Ok(v) => v,
            Err(e) => return Err(e),
        };
        let max_items = match deserialize_count("maxItems", &m) {
            Ok(v) => v,
            Err(e) => return Err(e),
        };
        let min_items = match deserialize_count("minItems", &m) {
            Ok(v) => v,
            Err(e) => return Err(e),
        };
        let max_length = match deserialize_count("maxLength", &m) {
            Ok(v) => v,
            Err(e) => return Err(e),
        };
        let min_length = match deserialize_count("minLength", &m) {
            Ok(v) => v,
            Err(e) => return Err(e),
        };
        let multiple_of = match deserialize_integer("multipleOf", &m) {
            Ok(v) => v,
            Err(e) => return Err(e),
        };
        let max = match deserialize_integer("max", &m) {
            Ok(v) => v,
            Err(e) => return Err(e),
        };
        let exclusive_max = match deserialize_integer("exclusiveMax", &m) {
            Ok(v) => v,
            Err(e) => return Err(e),
        };
        let min = match deserialize_integer("min", &m) {
            Ok(v) => v,
            Err(e) => return Err(e),
        };
        let exclusive_min = match deserialize_integer("exclusiveMin", &m) {
            Ok(v) => v,
            Err(e) => return Err(e),
        };
        let pattern = match deserialize_pattern(&m) {
            Ok(v) => v,
            Err(e) => return Err(e),
        };
        let string_bounds = if schema_type == PrimitiveType::String || schema_type == PrimitiveType::StringList {
            match deserialize_string_object_bounds(&m) {
                Ok(v) => v,
                Err(e) => return Err(e),
            }
        } else {
            None
        };
        let integer_bounds = if schema_type == PrimitiveType::Integer || schema_type == PrimitiveType::Number {
            match deserialize_integer_bounds(&m) {
                Ok(v) => v,
                Err(e) => return Err(e),
            }
        } else {
            None
        };
        let boolean_bounds = if schema_type == PrimitiveType::Boolean {
            match deserialize_boolean_object_bounds(&m) {
                Ok(v) => v,
                Err(e) => return Err(e),
            }
        } else {
            None
        };
        let ghost m0 = m@;
        proof {
            reveal_strlit("properties");
            reveal_strlit("keys");
            reveal_strlit("values");
            reveal_strlit("items");
            assert("properties"@.len() == 10 && "keys"@.len() == 4 && "values"@.len() == 6 && "items"@.len() == 5);
            lookup_without_first(m0, "properties"@, "keys"@);
            lookup_without_first(m0, "properties"@, "values"@);
            lookup_without_first(m0, "properties"@, "items"@);
            let m1 = without_first(m0, "properties"@);
            lookup_without_first(m1, "keys"@, "values"@);
            lookup_without_first(m1, "keys"@, "items"@);
            let m2 = without_first(m1, "keys"@);
            lookup_without_first(m2, "values"@, "items"@);
            reveal_strlit("const");
            reveal_strlit("default");
            reveal_strlit("mapping");
            assert("const"@[0] == 'c' && "default"@[0] == 'd' && "mapping"@[0] == 'm' && "items"@[0] == 'i');
            assert("properties"@[0] == 'p' && "keys"@[0] == 'k' && "values"@[0] == 'v');
            let m3 = without_first(m2, "values"@);
            let m4 = without_first(m3, "items"@);
            let m5 = without_first(m4, "const"@);
            let m6 = without_first(m5, "default"@);
            lookup_without_first(m0, "properties"@, "const"@);
            lookup_without_first(m1, "keys"@, "const"@);
            lookup_without_first(m2, "values"@, "const"@);
            lookup_without_first(m3, "items"@, "const"@);
            lookup_without_first(m0, "properties"@, "default"@);
            lookup_without_first(m1, "keys"@, "default"@);
            lookup_without_first(m2, "values"@, "default"@);
            lookup_without_first(m3, "items"@, "default"@);
            lookup_without_first(m4, "const"@, "default"@);
            lookup_without_first(m0, "properties"@, "mapping"@);
            lookup_without_first(m1, "keys"@, "mapping"@);
            lookup_without_first(m2, "values"@, "mapping"@);
            lookup_without_first(m3, "items"@, "mapping"@);
            lookup_without_first(m4, "const"@, "mapping"@);
            lookup_without_first(m5, "default"@, "mapping"@);
        }
        let properties = match take_entry(&mut m, "properties") {
            None => {
                let v: Vec<Property> = Vec::new();
                assert(property_names(v@) =~= Seq::<Seq<char>>::empty());
                v
            },
            Some(p) => match decode_properties(p, depth) {
                Ok(v) => v,
                Err(e) => return Err(e),
            },
        };
        let keys = match take_entry(&mut m, "keys") {
            None => None,
            Some(k) => match Schema::decode(k, depth - 1) {
                Ok(v) => Some(Box::new(v)),
                Err(e) => return Err(e),
            },
        };
        let values = match take_entry(&mut m, "values") {
            None => None,
            Some(k) => match Schema::decode(k, depth - 1) {
                Ok(v) => Some(Box::new(v)),
                Err(e) => return Err(e),
            },
        };
        let items = match take_entry(&mut m, "items") {
            None => Vec::new(),
            Some(i) => match decode_items(i, depth) {
                Ok(v) => v,
                Err(e) => return Err(e),
            },
        };
        let constant = take_entry(&mut m, "const");
        let default_value = take_entry(&mut m, "default");
        let mapping = take_entry(&mut m, "mapping");
        let s = Schema {
            version,
            mapping,
            schema_type,
            constant,
            default_value,
            enumeration,
            formula,
            read_only,
            write_only,
            placeholder,
            hidden,
            properties,
            keys,
            values,
            additional_properties,
            separator,
            title,
            help,
            warning,
            description,
            items,
            max_items,
            min_items,
            unique_items,
            orderable,
            addable,
            removable,
            multiple_of,
            max,
            exclusive_max,
            min,
            exclusive_min,
            max_length,
            min_length,
            pattern,
            string_bounds,
            integer_bounds,
            boolean_bounds,
        };
        assert(fields_match(s, m0));
        Ok(s)
    }
}

/// The names of a list of properties, in order.
pub open spec fn property_names(v: Seq<Property>) -> Seq<Seq<char>> {
    v.map_values(|p: Property| p.name@)
}

/// The keys of a mapping, in order.
pub open spec fn mapping_keys(m: Seq<(String, Yaml)>) -> Seq<Seq<char>> {
    m.map_values(|e: (String, Yaml)| e.0@)
}

/// The names that `properties` declares: the keys of its mapping.
pub open spec fn declared_names(m: Seq<(String, Yaml)>) -> Seq<Seq<char>> {
    match lookup(m, "properties"@) {
        Some(Yaml::Mapping(pm)) => mapping_keys(pm@),
        _ => Seq::empty(),
    }
}

/// Decodes `properties`: a mapping from names to nodes, in order.
fn decode_properties(p: Yaml, depth: u64) -> (r: Result<Vec<Property>, DecodeError>)
    requires
        depth >= 1,
    ensures
        r is Ok ==> (p matches Yaml::Mapping(m) && property_names(r->Ok_0@) == mapping_keys(m@)),
        r is Ok <==> (p matches Yaml::Mapping(m) && forall|i: int|
            0 <= i < m@.len() ==> decodable(#[trigger] m@[i].1, (depth - 1) as nat)),
        r matches Ok(v) ==> (p matches Yaml::Mapping(m) && v@.len() == m@.len() && forall|i: int|
            0 <= i < m@.len() ==> decoded_from(#[trigger] v@[i].schema, m@[i].1, (depth - 1) as nat)),
    decreases depth, 0u64,
{
    let mut entries = match p {
        Yaml::Mapping(m) => m,
        _ => return Err(DecodeError::WrongShape("properties".to_string())),
    };
    let ghost all = entries@;
    let mut out: Vec<Property> = Vec::new();
    while entries.len() > 0
        invariant
            depth >= 1,
            p matches Yaml::Mapping(m) && m@ == all,
            0 <= out@.len() <= all.len(),
            entries@ == all.subrange(out@.len() as int, all.len() as int),
            property_names(out@) == mapping_keys(all.take(out@.len() as int)),
            forall|j: int| 0 <= j < out@.len() ==> decodable(#[trigger] all[j].1, (depth - 1) as nat),
            forall|j: int|
                0 <= j < out@.len() ==> decoded_from(#[trigger] out@[j].schema, all[j].1, (depth - 1) as nat),
        decreases entries.len(),
    {
        let ghost k = out@.len() as int;
        let ghost before = out@;
        let (name, node) = entries.remove(0);
        assert(name@ == all[k].0@);
        assert(node == all[k].1);
        match Schema::decode(node, depth - 1) {
            Ok(schema) => out.push(Property { name, schema }),
            Err(e) => return Err(e),
        }
        assert(out@ == before.push(out@[k]));
        assert forall|j: int| 0 <= j < out@.len() implies decoded_from(
            #[trigger] out@[j].schema,
            all[j].1,
            (depth - 1) as nat,
        ) by {
            if j < k {
                assert(decoded_from(before[j].schema, all[j].1, (depth - 1) as nat));
                assert(out@[j] == before[j]);
            }
        }
        assert(property_names(out@) =~= property_names(before).push(name@));
        assert(all.take(k + 1) =~= all.take(k).push(all[k]));
        assert(mapping_keys(all.take(k + 1)) =~= mapping_keys(all.take(k)).push(all[k].0@));
        assert(entries@ =~= all.subrange(k + 1, all.len() as int));
    }
    assert(all.take(all.len() as int) =~= all);
    Ok(out)
}

/// Decodes `items`: one node, or a sequence of nodes.
fn decode_items(i: Yaml, depth: u64) -> (r: Result<Vec<Schema>, DecodeError>)
    requires
        depth >= 1,
    ensures
        r is Ok <==> match i {
            Yaml::Mapping(im) => decodable(Yaml::Mapping(im), (depth - 1) as nat),
            Yaml::Sequence(v) => forall|k: int| 0 <= k < v@.len() ==> decodable(#[trigger] v@[k], (depth - 1) as nat),
            _ => false,
        },
        r matches Ok(v) ==> match i {
            Yaml::Mapping(im) => v@.len() == 1 && decoded_from(v@[0], Yaml::Mapping(im), (depth - 1) as nat),
            Yaml::Sequence(s) => v@.len() == s@.len() && forall|k: int|
                0 <= k < s@.len() ==> decoded_from(#[trigger] v@[k], s@[k], (depth - 1) as nat),
            _ => false,
        },
    decreases depth, 0u64,
{
    match i {
        Yaml::Mapping(m) => match Schema::decode(Yaml::Mapping(m), depth - 1) {
            Ok(s) => {
                let mut out: Vec<Schema> = Vec::new();
                out.push(s);
                Ok(out)
            },
            Err(e) => Err(e),
        },
        Yaml::Sequence(mut nodes) => {
            let ghost all = nodes@;
            let mut out: Vec<Schema> = Vec::new();
            while nodes.len() > 0
                invariant
                    depth >= 1,
                    i matches Yaml::Sequence(v) && v@ == all,
                    0 <= out@.len() <= all.len(),
                    nodes@ == all.subrange(out@.len() as int, all.len() as int),
                    forall|j: int| 0 <= j < out@.len() ==> decodable(#[trigger] all[j], (depth - 1) as nat),
                    forall|j: int| 0 <= j < out@.len() ==> decoded_from(#[trigger] out@[j], all[j], (depth - 1) as nat),
                decreases nodes.len(),
            {
                let ghost k = out@.len() as int;
                let ghost before = out@;
                let node = nodes.remove(0);
                assert(node == all[k]);
                match Schema::decode(node, depth - 1) {
                    Ok(s) => out.push(s),
                    Err(e) => return Err(e),
                }
                assert forall|j: int| 0 <= j < out@.len() implies decoded_from(
                    #[trigger] out@[j],
                    all[j],
                    (depth - 1) as nat,
                ) by {
                    if j < k {
                        assert(decoded_from(before[j], all[j], (depth - 1) as nat));
                        assert(out@[j] == before[j]);
                    }
                }
                assert(nodes@ =~= all.subrange(k + 1, all.len() as int));
            }
            Ok(out)
        },
        _ => Err(DecodeError::WrongShape("items".to_string())),
    }
}


/// A borrowed text as plain values.
pub open spec fn text_view(o: Option<&str>) -> Option<Seq<char>> {
    match o {
        Some(s) => Some(s@),
        None => None,
    }
}

impl Schema {
    /// The format version, when the node names one.
    pub fn version(&self) -> (r: Option<u8>)
        ensures
            r == self.version,
    {
        self.version
    }

    /// The declared kind.
    pub fn schema_type(&self) -> (r: PrimitiveType)
        ensures
            r == self.schema_type,
    {
        self.schema_type
    }

    /// The constant value.
    pub fn constant(&self) -> (r: Option<&Yaml>)
        ensures
            r is Some <==> self.constant is Some,
            r matches Some(v) ==> *v == self.constant->0,
    {
        match &self.constant {
            Some(v) => Some(v),
            None => None,
        }
    }

    /// The default value.
    pub fn default_value(&self) -> (r: Option<&Yaml>)
        ensures
            r is Some <==> self.default_value is Some,
            r matches Some(v) ==> *v == self.default_value->0,
    {
        match &self.default_value {
            Some(v) => Some(v),
            None => None,
        }
    }

    /// The enumeration entries.
    pub fn enumeration(&self) -> (r: &[EnumerationValue])
        ensures
            r@ == self.enumeration@,
    {
        self.enumeration.as_slice()
    }

    /// The formula that derives the value.
    pub fn formula(&self) -> (r: Option<&str>)
        ensures
            text_view(r) == opt_view(self.formula),
    {
        match &self.formula {
            Some(t) => Some(t.as_str()),
            None => None,
        }
    }

    /// The placeholder text.
    pub fn placeholder(&self) -> (r: Option<&str>)
        ensures
            text_view(r) == opt_view(self.placeholder),
    {
        match &self.placeholder {
            Some(t) => Some(t.as_str()),
            None => None,
        }
    }

    /// Whether the value is read-only.
    pub fn read_only(&self) -> (r: bool)
        ensures
            r == self.read_only,
    {
        self.read_only
    }

    /// Whether the value is write-only.
    pub fn write_only(&self) -> (r: bool)
        ensures
            r == self.write_only,
    {
        self.write_only
    }

    /// Whether the value is hidden.
    pub fn hidden(&self) -> (r: bool)
        ensures
            r == self.hidden,
    {
        self.hidden
    }

    /// The mapping extension block.
    pub fn mapping(&self) -> (r: Option<&Yaml>)
        ensures
            r is Some <==> self.mapping is Some,
            r matches Some(v) ==> *v == self.mapping->0,
    {
        match &self.mapping {
            Some(v) => Some(v),
            None => None,
        }
    }

    /// The child properties, in declaration order.
    pub fn properties(&self) -> (r: &[Property])
        ensures
            r@ == self.properties@,
    {
        self.properties.as_slice()
    }

    /// The schema of the keys of a map.
    pub fn keys(&self) -> (r: Option<&Schema>)
        ensures
            r is Some <==> self.keys is Some,
            r matches Some(v) ==> *v == *self.keys->0,
    {
        match &self.keys {
            Some(v) => Some(&**v),
            None => None,
        }
    }

    /// The schema of the values of a map.
    pub fn values(&self) -> (r: Option<&Schema>)
        ensures
            r is Some <==> self.values is Some,
            r matches Some(v) ==> *v == *self.values->0,
    {
        match &self.values {
            Some(v) => Some(&**v),
            None => None,
        }
    }

    /// Whether untyped properties are permitted.
    pub fn additional_properties(&self) -> (r: bool)
        ensures
            r == self.additional_properties,
    {
        self.additional_properties
    }

    /// The separator of a string list.
    pub fn separator(&self) -> (r: Option<&str>)
        ensures
            text_view(r) == opt_view(self.separator),
    {
        match &self.separator {
            Some(t) => Some(t.as_str()),
            None => None,
        }
    }

    /// The title.
    pub fn title(&self) -> (r: Option<&str>)
        ensures
            text_view(r) == opt_view(self.title),
    {
        match &self.title {
            Some(t) => Some(t.as_str()),
            None => None,
        }
    }

    /// The help text.
    pub fn help(&self) -> (r: Option<&str>)
        ensures
            text_view(r) == opt_view(self.help),
    {
        match &self.help {
            Some(t) => Some(t.as_str()),
            None => None,
        }
    }

    /// The warning text.
    pub fn warning(&self) -> (r: Option<&str>)
        ensures
            text_view(r) == opt_view(self.warning),
    {
        match &self.warning {
            Some(t) => Some(t.as_str()),
            None => None,
        }
    }

    /// The description.
    pub fn description(&self) -> (r: Option<&str>)
        ensures
            text_view(r) == opt_view(self.description),
    {
        match &self.description {
            Some(t) => Some(t.as_str()),
            None => None,
        }
    }

    /// What the number must be a multiple of.
    pub fn multiple_of(&self) -> (r: Option<i64>)
        ensures
            r == self.multiple_of,
    {
        self.multiple_of
    }

    /// The inclusive maximum.
    pub fn max(&self) -> (r: Option<i64>)
        ensures
            r == self.max,
    {
        self.max
    }

    /// The inclusive minimum.
    pub fn min(&self) -> (r: Option<i64>)
        ensures
            r == self.min,
    {
        self.min
    }

    /// The exclusive maximum.
    pub fn exclusive_max(&self) -> (r: Option<i64>)
        ensures
            r == self.exclusive_max,
    {
        self.exclusive_max
    }

    /// The exclusive minimum.
    pub fn exclusive_min(&self) -> (r: Option<i64>)
        ensures
            r == self.exclusive_min,
    {
        self.exclusive_min
    }

    /// The maximum character count.
    pub fn max_length(&self) -> (r: Option<u64>)
        ensures
            r == self.max_length,
    {
        self.max_length
    }

    /// The minimum character count.
    pub fn min_length(&self) -> (r: Option<u64>)
        ensures
            r == self.min_length,
    {
        self.min_length
    }

    /// The regular expression that the text must match.
    pub fn pattern(&self) -> (r: Option<&str>)
        ensures
            text_view(r) == opt_view(self.pattern),
    {
        match &self.pattern {
            Some(t) => Some(t.as_str()),
            None => None,
        }
    }

    /// The item schemas of an array.
    pub fn items(&self) -> (r: &[Schema])
        ensures
            r@ == self.items@,
    {
        self.items.as_slice()
    }

    /// The maximum number of items.
    pub fn max_items(&self) -> (r: Option<u64>)
        ensures
            r == self.max_items,
    {
        self.max_items
    }

    /// The minimum number of items.
    pub fn min_items(&self) -> (r: Option<u64>)
        ensures
            r == self.min_items,
    {
        self.min_items
    }

    /// Whether the items must differ.
    pub fn unique_items(&self) -> (r: bool)
        ensures
            r == self.unique_items,
    {
        self.unique_items
    }

    /// Whether items may be added.
    pub fn addable(&self) -> (r: Option<bool>)
        ensures
            r == self.addable,
    {
        self.addable
    }

    /// Whether items may be removed.
    pub fn removable(&self) -> (r: Option<bool>)
        ensures
            r == self.removable,
    {
        self.removable
    }

    /// Whether items may be reordered.
    pub fn orderable(&self) -> (r: Option<bool>)
        ensures
            r == self.orderable,
    {
        self.orderable
    }
}

} // verus!
