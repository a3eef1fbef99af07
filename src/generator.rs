use vstd::prelude::*;

use crate::compiler::{compile, compiled_from, distinct_texts, ValidatedSchema};
use crate::error::DecodeError;
use crate::json::{is_text, is_text_list, Json};
use crate::schema::{childless, decodable, declared_names, fields_fail, PrimitiveType, Property, MAX_DEPTH};
use crate::yaml::Yaml;

verus! {

/// The address of the JSON Schema dialect that generated documents declare.
pub const SCHEMA_URL: &'static str = "http://json-schema.org/draft-04/schema#";

/// The keyword that names a kind in generated documents.
pub open spec fn kind_text(k: PrimitiveType) -> Seq<char> {
    match k {
        PrimitiveType::Object => "object"@,
        PrimitiveType::Array => "array"@,
        PrimitiveType::String => "string"@,
        PrimitiveType::Integer => "integer"@,
        PrimitiveType::Number => "number"@,
        PrimitiveType::Boolean => "boolean"@,
        PrimitiveType::Dictionary => "map"@,
        PrimitiveType::StringList => "stringlist"@,
    }
}

fn kind_keyword(k: PrimitiveType) -> (r: String)
    ensures
        r@ == kind_text(k),
{
    match k {
        PrimitiveType::Object => "object".to_string(),
        PrimitiveType::Array => "array".to_string(),
        PrimitiveType::String => "string".to_string(),
        PrimitiveType::Integer => "integer".to_string(),
        PrimitiveType::Number => "number".to_string(),
        PrimitiveType::Boolean => "boolean".to_string(),
        PrimitiveType::Dictionary => "map".to_string(),
        PrimitiveType::StringList => "stringlist".to_string(),
    }
}

/// Whether `j` is the JSON Schema of a property: its kind, and its title when it has one.
pub open spec fn property_document(j: Json, p: Property) -> bool {
    j matches Json::Object(e) && e@.len() == (if p.schema.title is Some {
        2int
    } else {
        1int
    }) && e@[0].0@ == "type"@ && is_text(e@[0].1, kind_text(p.schema.schema_type)) && (
    p.schema.title matches Some(t) ==> e@[1].0@ == "title"@ && is_text(e@[1].1, t@))
}

fn property_json(p: &Property) -> (r: Json)
    ensures
        property_document(r, *p),
{
    let mut e: Vec<(String, Json)> = Vec::new();
    e.push(("type".to_string(), Json::Str(kind_keyword(p.schema.schema_type))));
    if let Some(t) = &p.schema.title {
        e.push(("title".to_string(), Json::Str(t.clone())));
    }
    Json::Object(e)
}

fn text_list(names: &Vec<String>) -> (r: Json)
    ensures
        is_text_list(r, names@),
{
    let mut a: Vec<Json> = Vec::new();
    let mut i: usize = 0;
    while i < names.len()
        invariant
            i <= names@.len(),
            a@.len() == i,
            forall|k: int| 0 <= k < i ==> #[trigger] is_text(a@[k], names@[k]@),
        decreases names.len() - i,
    {
        a.push(Json::Str(names[i].clone()));
        i = i + 1;
    }
    Json::Array(a)
}

/// Whether the first `n` members document the first `n` properties.
pub open spec fn documents_up_to(ps: Seq<(String, Json)>, props: Seq<Property>, n: int) -> bool {
    forall|k: int|
        0 <= k < n ==> ps[k].0@ == props[k].name@ && #[trigger] property_document(ps[k].1, props[k])
}

fn property_documents(props: &Vec<Property>) -> (r: Vec<(String, Json)>)
    ensures
        r@.len() == props@.len(),
        documents_up_to(r@, props@, r@.len() as int),
{
    let mut ps: Vec<(String, Json)> = Vec::new();
    let mut i: usize = 0;
    while i < props.len()
        invariant
            i <= props@.len(),
            ps@.len() == i,
            documents_up_to(ps@, props@, i as int),
        decreases props.len() - i,
    {
        let ghost before = ps@;
        let pj = property_json(&props[i]);
        let name = props[i].name.clone();
        ps.push((name, pj));
        assert forall|k: int| 0 <= k < ps@.len() implies ps@[k].0@ == props@[k].name@ && property_document(
            ps@[k].1,
            props@[k],
        ) by {
            if k < i {
                assert(before[k] == ps@[k]);
                assert(property_document(before[k].1, props@[k]));
            }
        }
        i = i + 1;
    }
    ps
}

/// Turns a compiled description into its two documents.
pub struct Generator {
    pub compiled_schema: ValidatedSchema,
}

/// Whether `j` is the JSON Schema document of `s`, member by member in order.
pub open spec fn schema_document(j: Json, s: ValidatedSchema) -> bool {
    &&& j matches Json::Object(e)
    &&& e@.len() == if s.properties is Some {
        7int
    } else {
        4int
    }
    &&& e@[0].0@ == "$$version"@ && e@[0].1 == Json::Uint(s.version)
    &&& e@[1].0@ == "$schema"@ && is_text(e@[1].1, SCHEMA_URL@)
    &&& e@[2].0@ == "type"@ && is_text(e@[2].1, "object"@)
    &&& e@[3].0@ == "title"@ && is_text(e@[3].1, s.title@)
    &&& s.properties matches Some(l) ==> {
        &&& e@[4].0@ == "properties"@
        &&& e@[4].1 matches Json::Object(ps) && ps@.len() == l.properties@.len() && documents_up_to(
            ps@,
            l.properties@,
            ps@.len() as int,
        )
        &&& e@[5].0@ == "$$order"@ && is_text_list(e@[5].1, l.property_names@)
        &&& e@[6].0@ == "required"@ && is_text_list(e@[6].1, l.property_names@)
    }
}

/// Whether `j` is the UI document of `s`: an object with no member at the top level.
pub open spec fn ui_document(j: Json, s: ValidatedSchema) -> bool {
    j matches Json::Object(e) && e@.len() == 0
}

impl Generator {
    /// A generator for a compiled description.
    pub fn new(compiled_schema: ValidatedSchema) -> (r: Generator)
        ensures
            r.compiled_schema == compiled_schema,
    {
        Generator { compiled_schema }
    }

    /// Compiles a description into a generator.
    pub fn with(yaml: Yaml) -> (r: Result<Generator, DecodeError>)
        ensures
            !(yaml is Mapping) ==> r is Err,
            yaml is Mapping && fields_fail(yaml->Mapping_0@) ==> r is Err,
            yaml is Mapping && !fields_fail(yaml->Mapping_0@) && childless(yaml->Mapping_0@) ==> r is Ok,
            r is Ok <==> decodable(yaml, MAX_DEPTH as nat) && distinct_texts(declared_names(yaml->Mapping_0@)),
            r matches Ok(g) ==> compiled_from(g.compiled_schema, yaml),
    {
        match compile(yaml) {
            Ok(s) => Ok(Generator::new(s)),
            Err(e) => Err(e),
        }
    }

    /// The JSON Schema document and the UI document.
    pub fn generate(self) -> (r: (Json, Json))
        ensures
            schema_document(r.0, self.compiled_schema),
            ui_document(r.1, self.compiled_schema),
    {
        let s = self.compiled_schema;
        let mut e: Vec<(String, Json)> = Vec::new();
        e.push(("$$version".to_string(), Json::Uint(s.version)));
        e.push(("$schema".to_string(), Json::Str(SCHEMA_URL.to_string())));
        e.push(("type".to_string(), Json::Str("object".to_string())));
        e.push(("title".to_string(), Json::Str(s.title.clone())));
        if let Some(l) = &s.properties {
            let ps = property_documents(&l.properties);
            e.push(("properties".to_string(), Json::Object(ps)));
            e.push(("$$order".to_string(), text_list(&l.property_names)));
            e.push(("required".to_string(), text_list(&l.property_names)));
        }
        let ui: Vec<(String, Json)> = Vec::new();
        (Json::Object(e), Json::Object(ui))
    }
}

} // verus!
