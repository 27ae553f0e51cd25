//! The schemas of tool parameters, and what each provider wants changed in them.

use crate::json::{Json, JsonTree};
use crate::text::same_text;
use vstd::prelude::*;

verus! {

#[derive(Debug, Clone, Copy, PartialEq, Eq, Structural)]
pub enum JsonSchemaType {
    Object,
    Array,
    String,
    Number,
    Integer,
    Boolean,
    Null,
}

/// A schema. Properties stand in the order of their names, each name once.
#[derive(Debug, PartialEq, Eq)]
pub struct JsonSchema {
    pub schema_type: JsonSchemaType,
    pub description: Option<String>,
    pub properties: Vec<(String, JsonSchema)>,
    pub required: Vec<String>,
    pub items: Option<Box<JsonSchema>>,
    pub additional_properties: Option<bool>,
}

/// The model of a [`JsonSchema`].
pub struct SchemaModel {
    pub schema_type: JsonSchemaType,
    pub description: Option<Seq<char>>,
    pub properties: Seq<(Seq<char>, SchemaModel)>,
    pub required: Seq<Seq<char>>,
    pub items: Option<Box<SchemaModel>>,
    pub additional_properties: Option<bool>,
}

pub open spec fn schema_model(schema: JsonSchema) -> SchemaModel
    decreases schema,
{
    SchemaModel {
        schema_type: schema.schema_type,
        description: schema.description.deep_view(),
        properties: Seq::new(
            schema.properties@.len(),
            |i: int|
                if 0 <= i < schema.properties@.len() {
                    (schema.properties@[i].0@, schema_model(schema.properties@[i].1))
                } else {
                    arbitrary()
                },
        ),
        required: schema.required.deep_view(),
        items: match schema.items {
            Some(items) => Some(Box::new(schema_model(*items))),
            None => None,
        },
        additional_properties: schema.additional_properties,
    }
}

impl DeepView for JsonSchema {
    type V = SchemaModel;

    open spec fn deep_view(&self) -> SchemaModel {
        schema_model(*self)
    }
}

impl Clone for JsonSchema {
    fn clone(&self) -> (r: Self)
        ensures
            r.deep_view() == self.deep_view(),
        decreases self,
    {
        let mut properties: Vec<(String, JsonSchema)> = Vec::new();
        let mut i: usize = 0;
        while i < self.properties.len()
            invariant
                i <= self.properties.len(),
                properties.len() == i,
                forall|k: int|
                    0 <= k < i ==> (#[trigger] properties@[k]).0@ == self.properties@[k].0@
                        && schema_model(properties@[k].1) == schema_model(self.properties@[k].1),
            decreases self.properties.len() - i,
        {
            proof {
                assert(decreases_to!(*self => self.properties));
                assert(decreases_to!(self.properties@ => self.properties@[i as int]));
                assert(decreases_to!(self.properties@[i as int] => self.properties@[i as int].1));
            }
            properties.push((self.properties[i].0.clone(), self.properties[i].1.clone()));
            i += 1;
        }
        let items = match &self.items {
            Some(items) => Some(Box::new((**items).clone())),
            None => None,
        };
        let required = self.required.clone();
        let r = JsonSchema {
            schema_type: self.schema_type,
            description: self.description.clone(),
            properties,
            required,
            items,
            additional_properties: self.additional_properties,
        };
        proof {
            assert(r.deep_view().properties =~= self.deep_view().properties);
            assert(r.deep_view().required =~= self.deep_view().required);
        }
        r
    }
}

impl JsonSchema {
    /// A schema of that type and nothing more.
    pub fn new(schema_type: JsonSchemaType) -> (r: Self)
        ensures
            r.deep_view() == (SchemaModel {
                schema_type,
                description: None,
                properties: Seq::empty(),
                required: Seq::empty(),
                items: None,
                additional_properties: None,
            }),
    {
        let r = JsonSchema {
            schema_type,
            description: None,
            properties: Vec::new(),
            required: Vec::new(),
            items: None,
            additional_properties: None,
        };
        proof {
            assert(r.deep_view().properties =~= Seq::empty());
            assert(r.deep_view().required =~= Seq::empty());
        }
        r
    }

    /// The schema of an object with these properties and no others.
    pub fn object(properties: Vec<(String, JsonSchema)>, required: Vec<String>) -> (r: Self)
        ensures
            r.deep_view() == (SchemaModel {
                schema_type: JsonSchemaType::Object,
                description: None,
                properties: properties.deep_view(),
                required: required.deep_view(),
                items: None,
                additional_properties: Some(false),
            }),
    {
        let r = JsonSchema {
            schema_type: JsonSchemaType::Object,
            description: None,
            properties,
            required,
            items: None,
            additional_properties: Some(false),
        };
        proof {
            assert(r.deep_view().properties =~= properties.deep_view());
        }
        r
    }
}

/// The declaration of a tool.
#[derive(Debug, PartialEq, Eq)]
pub struct FunctionDecl {
    pub name: String,
    pub description: Option<String>,
    pub parameters: JsonSchema,
}

/// The model of a [`FunctionDecl`].
pub struct FunctionDeclModel {
    pub name: Seq<char>,
    pub description: Option<Seq<char>>,
    pub parameters: SchemaModel,
}

impl DeepView for FunctionDecl {
    type V = FunctionDeclModel;

    open spec fn deep_view(&self) -> FunctionDeclModel {
        FunctionDeclModel {
            name: self.name@,
            description: self.description.deep_view(),
            parameters: self.parameters.deep_view(),
        }
    }
}

impl FunctionDecl {
    pub fn new(name: &str, description: Option<String>, parameters: JsonSchema) -> (r: Self)
        ensures
            r.deep_view() == (FunctionDeclModel {
                name: name@,
                description: description.deep_view(),
                parameters: parameters.deep_view(),
            }),
    {
        FunctionDecl { name: name.to_owned(), description, parameters }
    }
}

/// The names that are required, followed by those that were not yet.
pub open spec fn with_required(required: Seq<Seq<char>>, names: Seq<Seq<char>>) -> Seq<Seq<char>>
    decreases names.len(),
{
    if names.len() == 0 {
        required
    } else {
        let before = with_required(required, names.drop_last());
        if before.contains(names.last()) {
            before
        } else {
            before.push(names.last())
        }
    }
}

pub open spec fn property_names(properties: Seq<(Seq<char>, SchemaModel)>) -> Seq<Seq<char>> {
    properties.map_values(|property: (Seq<char>, SchemaModel)| property.0)
}

/// A schema as OpenAI's strict mode wants it: every object schema in it is closed
/// and requires all of its properties.
pub open spec fn strict_schema(schema: SchemaModel) -> SchemaModel
    decreases schema,
{
    let items = match schema.items {
        Some(items) => Some(Box::new(strict_schema(*items))),
        None => None,
    };
    if schema.schema_type == JsonSchemaType::Object {
        SchemaModel {
            properties: Seq::new(
                schema.properties.len(),
                |i: int|
                    if 0 <= i < schema.properties.len() {
                        (schema.properties[i].0, strict_schema(schema.properties[i].1))
                    } else {
                        arbitrary()
                    },
            ),
            required: with_required(schema.required, property_names(schema.properties)),
            additional_properties: Some(false),
            items,
            ..schema
        }
    } else {
        SchemaModel { items, ..schema }
    }
}

fn require_all(required: &mut Vec<String>, properties: &Vec<(String, JsonSchema)>)
    ensures
        final(required).deep_view() == with_required(
            old(required).deep_view(),
            property_names(properties.deep_view()),
        ),
{
    let ghost start = required.deep_view();
    let ghost names = property_names(properties.deep_view());
    let mut i: usize = 0;
    proof {
        assert(names.take(0) =~= Seq::<Seq<char>>::empty());
    }
    while i < properties.len()
        invariant
            i <= properties.len(),
            names == property_names(properties.deep_view()),
            required.deep_view() == with_required(start, names.take(i as int)),
        decreases properties.len() - i,
    {
        let ghost before = required.deep_view();
        let name = &properties[i].0;
        let mut found = false;
        let mut k: usize = 0;
        while k < required.len()
            invariant
                k <= required.len(),
                required.deep_view() == before,
                name == properties@[i as int].0,
                found == exists|j: int| 0 <= j < k && before[j] == name@,
            decreases required.len() - k,
        {
            if same_text(required[k].as_str(), name.as_str()) {
                found = true;
                assert(before[k as int] == name@);
            }
            k += 1;
        }
        proof {
            assert(names.take(i as int + 1).drop_last() =~= names.take(i as int));
            assert(names.take(i as int + 1).last() == name@);
            assert(found == before.contains(name@));
        }
        if !found {
            required.push(name.clone());
            assert(required.deep_view() =~= before.push(name@));
        }
        i += 1;
    }
    proof {
        assert(names.take(i as int) =~= names);
    }
}

/// Closes every object schema and makes all of its properties required.
pub fn sanitize_schema_strict(schema: &JsonSchema) -> (r: JsonSchema)
    ensures
        r.deep_view() == strict_schema(schema.deep_view()),
    decreases schema,
{
    let items = match &schema.items {
        Some(items) => Some(Box::new(sanitize_schema_strict(&**items))),
        None => None,
    };
    if schema.schema_type != JsonSchemaType::Object {
        let mut r = schema.clone();
        r.items = items;
        return r;
    }
    let mut properties: Vec<(String, JsonSchema)> = Vec::new();
    let mut i: usize = 0;
    while i < schema.properties.len()
        invariant
            i <= schema.properties.len(),
            properties.len() == i,
            forall|k: int|
                0 <= k < i ==> (#[trigger] properties@[k]).0@ == schema.properties@[k].0@
                    && schema_model(properties@[k].1) == strict_schema(
                    schema_model(schema.properties@[k].1),
                ),
        decreases schema.properties.len() - i,
    {
        proof {
            assert(decreases_to!(*schema => schema.properties));
            assert(decreases_to!(schema.properties@ => schema.properties@[i as int]));
            assert(decreases_to!(schema.properties@[i as int] => schema.properties@[i as int].1));
        }
        properties.push(
            (schema.properties[i].0.clone(), sanitize_schema_strict(&schema.properties[i].1)),
        );
        i += 1;
    }
    let mut required = schema.required.clone();
    proof {
        assert(required.deep_view() =~= schema.required.deep_view());
        assert(schema.properties.deep_view() =~= schema.deep_view().properties);
    }
    require_all(&mut required, &schema.properties);
    let r = JsonSchema {
        schema_type: JsonSchemaType::Object,
        description: schema.description.clone(),
        properties,
        required,
        items,
        additional_properties: Some(false),
    };
    proof {
        assert(r.deep_view().properties =~= strict_schema(schema.deep_view()).properties);
    }
    r
}

/// Every object schema reached from here is closed and requires all of its
/// properties.
pub open spec fn is_strict(schema: SchemaModel) -> bool
    decreases schema,
{
    &&& schema.schema_type == JsonSchemaType::Object ==> {
        &&& schema.additional_properties == Some(false)
        &&& forall|i: int|
            0 <= i < schema.properties.len() ==> schema.required.contains(
                #[trigger] schema.properties[i].0,
            )
        &&& forall|i: int|
            0 <= i < schema.properties.len() ==> is_strict((#[trigger] schema.properties[i]).1)
    }
    &&& match schema.items {
        Some(items) => is_strict(*items),
        None => true,
    }
}

proof fn lemma_with_required(required: Seq<Seq<char>>, names: Seq<Seq<char>>, name: Seq<char>)
    ensures
        with_required(required, names).contains(name) <==> required.contains(name)
            || names.contains(name),
    decreases names.len(),
{
    if names.len() > 0 {
        lemma_with_required(required, names.drop_last(), name);
        lemma_with_required(required, names.drop_last(), names.last());
        let before = with_required(required, names.drop_last());
        assert(before.push(names.last()).contains(name) <==> before.contains(name) || name
            == names.last()) by {
            if before.contains(name) {
                let i = choose|i: int| 0 <= i < before.len() && before[i] == name;
                assert(before.push(names.last())[i] == name);
            }
            assert(before.push(names.last())[before.len() as int] == names.last());
        }
        assert(names.contains(name) <==> names.drop_last().contains(name) || name == names.last())
            by {
            if names.contains(name) {
                let i = choose|i: int| 0 <= i < names.len() && names[i] == name;
                if i < names.len() - 1 {
                    assert(names.drop_last()[i] == name);
                }
            }
            if names.drop_last().contains(name) {
                let i = choose|i: int|
                    0 <= i < names.drop_last().len() && names.drop_last()[i] == name;
                assert(names[i] == name);
            }
            assert(names[names.len() - 1] == names.last());
        }
    }
}

/// A sanitized schema meets what strict mode asks of it.
pub proof fn law_strict_schema_is_strict(schema: SchemaModel)
    ensures
        is_strict(strict_schema(schema)),
    decreases schema,
{
    let strict = strict_schema(schema);
    if let Some(items) = schema.items {
        law_strict_schema_is_strict(*items);
    }
    if schema.schema_type == JsonSchemaType::Object {
        assert forall|i: int| 0 <= i < strict.properties.len() implies strict.required.contains(
            #[trigger] strict.properties[i].0,
        ) by {
            let names = property_names(schema.properties);
            assert(names[i] == schema.properties[i].0);
            lemma_with_required(schema.required, names, names[i]);
        }
        assert forall|i: int| 0 <= i < strict.properties.len() implies is_strict(
            (#[trigger] strict.properties[i]).1,
        ) by {
            law_strict_schema_is_strict(schema.properties[i].1);
        }
    }
}

proof fn lemma_nothing_to_require(required: Seq<Seq<char>>, names: Seq<Seq<char>>)
    requires
        forall|i: int| 0 <= i < names.len() ==> required.contains(#[trigger] names[i]),
    ensures
        with_required(required, names) == required,
    decreases names.len(),
{
    if names.len() > 0 {
        assert forall|i: int| 0 <= i < names.drop_last().len() implies required.contains(
            #[trigger] names.drop_last()[i],
        ) by {
            assert(names.drop_last()[i] == names[i]);
        }
        lemma_nothing_to_require(required, names.drop_last());
        assert(names[names.len() - 1] == names.last());
    }
}

/// A schema that meets what strict mode asks of it is left as it is; so sanitizing
/// twice is sanitizing once.
pub proof fn law_strict_schema_is_kept(schema: SchemaModel)
    requires
        is_strict(schema),
    ensures
        strict_schema(schema) == schema,
    decreases schema,
{
    if let Some(items) = schema.items {
        law_strict_schema_is_kept(*items);
    }
    if schema.schema_type == JsonSchemaType::Object {
        assert forall|i: int| 0 <= i < schema.properties.len() implies strict_schema(
            (#[trigger] schema.properties[i]).1,
        ) == schema.properties[i].1 by {
            law_strict_schema_is_kept(schema.properties[i].1);
        }
        assert(strict_schema(schema).properties =~= schema.properties);
        let names = property_names(schema.properties);
        assert forall|i: int| 0 <= i < names.len() implies schema.required.contains(
            #[trigger] names[i],
        ) by {
            assert(names[i] == schema.properties[i].0);
        }
        lemma_nothing_to_require(schema.required, names);
    }
}

/// The name of a schema type.
pub open spec fn name_of_type(schema_type: JsonSchemaType) -> Seq<char> {
    match schema_type {
        JsonSchemaType::Object => "object"@,
        JsonSchemaType::Array => "array"@,
        JsonSchemaType::String => "string"@,
        JsonSchemaType::Number => "number"@,
        JsonSchemaType::Integer => "integer"@,
        JsonSchemaType::Boolean => "boolean"@,
        JsonSchemaType::Null => "null"@,
    }
}

impl JsonSchemaType {
    /// The name of the type.
    pub fn as_str(self) -> (r: &'static str)
        ensures
            r@ == name_of_type(self),
    {
        match self {
            JsonSchemaType::Object => "object",
            JsonSchemaType::Array => "array",
            JsonSchemaType::String => "string",
            JsonSchemaType::Number => "number",
            JsonSchemaType::Integer => "integer",
            JsonSchemaType::Boolean => "boolean",
            JsonSchemaType::Null => "null",
        }
    }
}

pub open spec fn text_list(texts: Seq<Seq<char>>) -> JsonTree {
    JsonTree::List(texts.map_values(|text: Seq<char>| JsonTree::Text(text)))
}

/// No member where there is no value, else one.
pub open spec fn optional_member(name: Seq<char>, value: Option<JsonTree>) -> Seq<
    (Seq<char>, JsonTree),
> {
    match value {
        Some(tree) => seq![(name, tree)],
        None => Seq::empty(),
    }
}

/// A schema written as JSON. What a schema does not say is left out.
pub open spec fn schema_tree(schema: SchemaModel) -> JsonTree
    decreases schema,
{
    let additional_properties = match schema.additional_properties {
        Some(allowed) => Some(JsonTree::Bool(allowed)),
        None => None,
    };
    let description = match schema.description {
        Some(text) => Some(JsonTree::Text(text)),
        None => None,
    };
    let items = match schema.items {
        Some(items) => Some(schema_tree(*items)),
        None => None,
    };
    let properties = if schema.properties.len() > 0 {
        Some(JsonTree::Object(property_trees(schema.properties)))
    } else {
        None
    };
    let required = if schema.required.len() > 0 {
        Some(text_list(schema.required))
    } else {
        None
    };
    JsonTree::Object(
        optional_member("additionalProperties"@, additional_properties) + optional_member(
            "description"@,
            description,
        ) + optional_member("items"@, items) + optional_member("properties"@, properties)
            + optional_member("required"@, required) + optional_member(
            "type"@,
            Some(JsonTree::Text(name_of_type(schema.schema_type))),
        ),
    )
}

/// Named schemas written as JSON.
pub open spec fn property_trees(properties: Seq<(Seq<char>, SchemaModel)>) -> Seq<
    (Seq<char>, JsonTree),
>
    decreases properties,
{
    Seq::new(
        properties.len(),
        |i: int|
            if 0 <= i < properties.len() {
                (properties[i].0, schema_tree(properties[i].1))
            } else {
                arbitrary()
            },
    )
}

fn text_values(texts: &Vec<String>) -> (r: Json)
    ensures
        r.deep_view() == text_list(texts.deep_view()),
{
    let mut out: Vec<Json> = Vec::new();
    let mut i: usize = 0;
    while i < texts.len()
        invariant
            i <= texts.len(),
            out.len() == i,
            forall|k: int|
                0 <= k < i ==> (#[trigger] out@[k]).deep_view() == JsonTree::Text(texts@[k]@),
        decreases texts.len() - i,
    {
        out.push(Json::Text(texts[i].clone()));
        i += 1;
    }
    let r = Json::List(out);
    proof {
        assert(r.deep_view()->List_0 =~= text_list(texts.deep_view())->List_0);
    }
    r
}

fn push_member(members: &mut Vec<(String, Json)>, name: &str, value: Json)
    ensures
        final(members).deep_view() == old(members).deep_view().push((name@, value.deep_view())),
{
    members.push((name.to_owned(), value));
    proof {
        assert(members.deep_view() =~= old(members).deep_view().push((name@, value.deep_view())));
    }
}

fn push_optional(members: &mut Vec<(String, Json)>, name: &str, value: Option<Json>)
    ensures
        final(members).deep_view() == old(members).deep_view() + optional_member(
            name@,
            value.deep_view(),
        ),
{
    if let Some(json) = value {
        members.push((name.to_owned(), json));
    }
    proof {
        assert(members.deep_view() =~= old(members).deep_view() + optional_member(
            name@,
            value.deep_view(),
        ));
    }
}

fn properties_json(properties: &Vec<(String, JsonSchema)>) -> (r: Json)
    ensures
        r.deep_view() == JsonTree::Object(property_trees(properties.deep_view())),
    decreases properties,
{
    let mut out: Vec<(String, Json)> = Vec::new();
    let mut i: usize = 0;
    while i < properties.len()
        invariant
            i <= properties.len(),
            out.len() == i,
            forall|k: int|
                0 <= k < i ==> (#[trigger] out@[k]).0@ == properties@[k].0@
                    && out@[k].1.deep_view() == schema_tree(properties@[k].1.deep_view()),
        decreases properties.len() - i,
    {
        proof {
            assert(decreases_to!(properties@ => properties@[i as int]));
            assert(decreases_to!(properties@[i as int] => properties@[i as int].1));
        }
        out.push((properties[i].0.clone(), properties[i].1.to_json()));
        i += 1;
    }
    let r = Json::Object(out);
    proof {
        assert(r.deep_view()->Object_0 =~= property_trees(properties.deep_view()));
    }
    r
}

impl JsonSchema {
    /// The schema written as JSON.
    pub fn to_json(&self) -> (r: Json)
        ensures
            r.deep_view() == schema_tree(self.deep_view()),
        decreases self,
    {
        let ghost model = self.deep_view();
        proof {
            assert(self.properties.deep_view() =~= model.properties);
        }
        let additional_properties = match self.additional_properties {
            Some(allowed) => Some(Json::Bool(allowed)),
            None => None,
        };
        let description = match &self.description {
            Some(text) => Some(Json::Text(text.clone())),
            None => None,
        };
        let items = match &self.items {
            Some(items) => Some(items.to_json()),
            None => None,
        };
        let properties = if self.properties.len() > 0 {
            Some(properties_json(&self.properties))
        } else {
            None
        };
        let required = if self.required.len() > 0 {
            Some(text_values(&self.required))
        } else {
            None
        };
        let kind = Some(Json::Text(self.schema_type.as_str().to_owned()));
        let mut members: Vec<(String, Json)> = Vec::new();
        let ghost nothing = members.deep_view();
        push_optional(&mut members, "additionalProperties", additional_properties);
        proof {
            assert(nothing =~= Seq::empty());
            assert(members.deep_view() =~= optional_member(
                "additionalProperties"@,
                additional_properties.deep_view(),
            ));
        }
        push_optional(&mut members, "description", description);
        push_optional(&mut members, "items", items);
        push_optional(&mut members, "properties", properties);
        push_optional(&mut members, "required", required);
        push_optional(&mut members, "type", kind);
        let r = Json::Object(members);
        proof {
            assert(r.deep_view()->Object_0 =~= members.deep_view());
        }
        r
    }
}

/// A schema as Gemini takes it: without `additionalProperties`, here and in every
/// schema that stands under `properties` or `items`.
pub open spec fn gemini_schema(tree: JsonTree) -> JsonTree
    decreases tree,
{
    match tree {
        JsonTree::Object(members) => JsonTree::Object(gemini_members(members)),
        _ => tree,
    }
}

pub open spec fn gemini_members(members: Seq<(Seq<char>, JsonTree)>) -> Seq<(Seq<char>, JsonTree)>
    decreases members,
{
    if members.len() == 0 {
        Seq::empty()
    } else {
        let before = gemini_members(members.drop_last());
        let (name, value) = members.last();
        if name == "additionalProperties"@ {
            before
        } else if name == "properties"@ {
            before.push((name, gemini_properties(value)))
        } else if name == "items"@ {
            before.push((name, gemini_schema(value)))
        } else {
            before.push((name, value))
        }
    }
}

pub open spec fn gemini_properties(tree: JsonTree) -> JsonTree
    decreases tree,
{
    match tree {
        JsonTree::Object(properties) => JsonTree::Object(
            Seq::new(
                properties.len(),
                |i: int|
                    if 0 <= i < properties.len() {
                        (properties[i].0, gemini_schema(properties[i].1))
                    } else {
                        arbitrary()
                    },
            ),
        ),
        _ => tree,
    }
}

fn gemini_json(schema: &Json) -> (r: Json)
    ensures
        r.deep_view() == gemini_schema(schema.deep_view()),
    decreases schema, 1int,
{
    match schema {
        Json::Object(members) => {
            let ghost tree = schema.deep_view()->Object_0;
            let mut out: Vec<(String, Json)> = Vec::new();
            let mut i: usize = 0;
            proof {
                assert(out.deep_view() =~= gemini_members(tree.take(0)));
            }
            while i < members.len()
                invariant
                    i <= members.len(),
                    *schema == Json::Object(*members),
                    tree == schema.deep_view()->Object_0,
                    out.deep_view() == gemini_members(tree.take(i as int)),
                decreases members.len() - i,
            {
                proof {
                    assert(decreases_to!(*schema => schema->Object_0));
                    assert(decreases_to!(members@ => members@[i as int]));
                    assert(decreases_to!(members@[i as int] => members@[i as int].1));
                    assert(tree.take(i as int + 1).drop_last() =~= tree.take(i as int));
                    assert(tree.take(i as int + 1).last() == (
                        members@[i as int].0@,
                        members@[i as int].1.deep_view(),
                    ));
                }
                let name = members[i].0.as_str();
                let value = &members[i].1;
                if same_text(name, "additionalProperties") {
                } else if same_text(name, "properties") {
                    push_member(&mut out, name, gemini_properties_json(value));
                } else if same_text(name, "items") {
                    push_member(&mut out, name, gemini_json(value));
                } else {
                    push_member(&mut out, name, value.clone());
                }
                i += 1;
            }
            let r = Json::Object(out);
            proof {
                assert(tree.take(i as int) =~= tree);
                assert(r.deep_view()->Object_0 =~= out.deep_view());
            }
            r
        },
        _ => schema.clone(),
    }
}

fn gemini_properties_json(schema: &Json) -> (r: Json)
    ensures
        r.deep_view() == gemini_properties(schema.deep_view()),
    decreases schema, 1int,
{
    match schema {
        Json::Object(members) => {
            let mut out: Vec<(String, Json)> = Vec::new();
            let mut i: usize = 0;
            while i < members.len()
                invariant
                    i <= members.len(),
                    *schema == Json::Object(*members),
                    out.len() == i,
                    forall|k: int|
                        0 <= k < i ==> (#[trigger] out@[k]).0@ == members@[k].0@
                            && out@[k].1.deep_view() == gemini_schema(members@[k].1.deep_view()),
                decreases members.len() - i,
            {
                proof {
                    assert(decreases_to!(*schema => schema->Object_0));
                    assert(decreases_to!(members@ => members@[i as int]));
                    assert(decreases_to!(members@[i as int] => members@[i as int].1));
                }
                out.push((members[i].0.clone(), gemini_json(&members[i].1)));
                i += 1;
            }
            let r = Json::Object(out);
            proof {
                assert(r.deep_view()->Object_0 =~= gemini_properties(schema.deep_view())->Object_0);
            }
            r
        },
        _ => schema.clone(),
    }
}

/// Takes out of a schema what Gemini does not support.
pub fn sanitize_schema_for_gemini(schema: &mut Json)
    ensures
        final(schema).deep_view() == gemini_schema(old(schema).deep_view()),
{
    let sanitized = gemini_json(&*schema);
    *schema = sanitized;
}

/// Sanitizing a schema for Gemini twice is sanitizing it once.
pub proof fn law_gemini_schema_is_idempotent(tree: JsonTree)
    ensures
        gemini_schema(gemini_schema(tree)) == gemini_schema(tree),
    decreases tree,
{
    if let JsonTree::Object(members) = tree {
        lemma_gemini_members_twice(members);
    }
}

proof fn lemma_gemini_members_twice(members: Seq<(Seq<char>, JsonTree)>)
    ensures
        gemini_members(gemini_members(members)) == gemini_members(members),
    decreases members,
{
    reveal_strlit("additionalProperties");
    reveal_strlit("properties");
    reveal_strlit("items");
    if members.len() > 0 {
        lemma_gemini_members_twice(members.drop_last());
        let before = gemini_members(members.drop_last());
        let (name, value) = members.last();
        if name != "additionalProperties"@ {
            let last = gemini_members(members).last();
            assert(gemini_members(members).drop_last() =~= before);
            if name == "properties"@ {
                lemma_gemini_properties_twice(value);
            } else if name == "items"@ {
                law_gemini_schema_is_idempotent(value);
            }
        }
    }
}

proof fn lemma_gemini_properties_twice(tree: JsonTree)
    ensures
        gemini_properties(gemini_properties(tree)) == gemini_properties(tree),
    decreases tree,
{
    if let JsonTree::Object(properties) = tree {
        assert forall|i: int| 0 <= i < properties.len() implies gemini_schema(
            gemini_schema((#[trigger] properties[i]).1),
        ) == gemini_schema(properties[i].1) by {
            law_gemini_schema_is_idempotent(properties[i].1);
        }
        assert(gemini_properties(gemini_properties(tree))->Object_0 =~= gemini_properties(
            tree,
        )->Object_0);
    }
}

/// A schema that was made strict has the properties that it had, each made strict by
/// itself; as an object it is closed and requires each of them. Nothing else of it changes.
pub proof fn law_strict_schema_keeps_its_properties(
    schema: JsonSchema,
    r: JsonSchema,
    i: int,
    inner: JsonSchema,
)
    requires
        call_ensures(sanitize_schema_strict, (&schema,), r),
        schema.schema_type == JsonSchemaType::Object,
        0 <= i < schema.properties@.len(),
        call_ensures(sanitize_schema_strict, (&schema.properties@[i].1,), inner),
    ensures
        r.schema_type == JsonSchemaType::Object,
        r.additional_properties == Some(false),
        r.description.deep_view() == schema.description.deep_view(),
        r.properties@.len() == schema.properties@.len(),
        r.properties@[i].0@ == schema.properties@[i].0@,
        r.properties@[i].1.deep_view() == inner.deep_view(),
        r.required.deep_view().contains(schema.properties@[i].0@),
        forall|k: int|
            0 <= k < schema.required@.len() ==> r.required.deep_view().contains(
                (#[trigger] schema.required@[k])@,
            ),
        r.items is Some <==> schema.items is Some,
{
    let model = schema.deep_view();
    let strict = r.deep_view();
    assert(model.properties.len() == schema.properties@.len());
    assert(strict.properties.len() == r.properties@.len());
    assert(strict == strict_schema(model));
    assert(model.properties[i] == (
        schema.properties@[i].0@,
        schema.properties@[i].1.deep_view(),
    ));
    assert(strict.properties[i] == (r.properties@[i].0@, r.properties@[i].1.deep_view()));
    assert(strict.properties[i] == (model.properties[i].0, strict_schema(model.properties[i].1)));
    let names = property_names(model.properties);
    assert(names[i] == schema.properties@[i].0@);
    assert(names.contains(names[i]));
    lemma_with_required(model.required, names, names[i]);
    assert forall|k: int| 0 <= k < schema.required@.len() implies r.required.deep_view().contains(
        (#[trigger] schema.required@[k])@,
    ) by {
        assert(model.required[k] == schema.required@[k]@);
        assert(model.required.contains(model.required[k]));
        lemma_with_required(model.required, names, model.required[k]);
    }
}

/// The items of an array are made strict, and what is no object stays open and requires what
/// it did.
pub proof fn law_strict_schema_reaches_items(
    schema: JsonSchema,
    r: JsonSchema,
    items: Box<JsonSchema>,
    inner: JsonSchema,
)
    requires
        call_ensures(sanitize_schema_strict, (&schema,), r),
        schema.items == Some(items),
        call_ensures(sanitize_schema_strict, (&*items,), inner),
    ensures
        r.items matches Some(found) && found.deep_view() == inner.deep_view(),
        schema.schema_type != JsonSchemaType::Object ==> r.schema_type == schema.schema_type
            && r.additional_properties == schema.additional_properties
            && r.required.deep_view() == schema.required.deep_view(),
{
    assert(r.deep_view() == strict_schema(schema.deep_view()));
}

/// A schema is written with its type, and with its description and whether it is open where
/// it says so.
pub proof fn law_schema_is_written_with_its_type(schema: JsonSchema, r: Json)
    requires
        call_ensures(JsonSchema::to_json, (&schema,), r),
    ensures
        r is Object,
        ({
            let members = r.deep_view()->Object_0;
            let open = if schema.additional_properties is Some {
                1int
            } else {
                0int
            };
            &&& members.len() > 0
            &&& members.last().0 == "type"@
            &&& members.last().1 == JsonTree::Text(
                match schema.schema_type {
                    JsonSchemaType::Object => "object"@,
                    JsonSchemaType::Array => "array"@,
                    JsonSchemaType::String => "string"@,
                    JsonSchemaType::Number => "number"@,
                    JsonSchemaType::Integer => "integer"@,
                    JsonSchemaType::Boolean => "boolean"@,
                    JsonSchemaType::Null => "null"@,
                },
            )
            &&& schema.additional_properties matches Some(allowed) ==> members[0] == (
                "additionalProperties"@,
                JsonTree::Bool(allowed),
            )
            &&& schema.description matches Some(said) ==> members[open] == (
                "description"@,
                JsonTree::Text(said@),
            )
        }),
{
    assert(r.deep_view() == schema_tree(schema.deep_view()));
}

/// A schema is written with its items, its properties under their names and what it
/// requires, each as it is.
pub proof fn law_schema_is_written_with_its_parts(schema: JsonSchema, r: Json, i: int, inner: Json)
    requires
        call_ensures(JsonSchema::to_json, (&schema,), r),
        0 <= i < schema.properties@.len(),
        call_ensures(JsonSchema::to_json, (&schema.properties@[i].1,), inner),
    ensures
        ({
            let members = r.deep_view()->Object_0;
            let required = if schema.required@.len() > 0 {
                1int
            } else {
                0int
            };
            let at = members.len() - 2 - required;
            &&& at >= 0
            &&& members[at].0 == "properties"@
            &&& members[at].1 matches JsonTree::Object(properties) && properties.len()
                == schema.properties@.len() && properties[i] == (
                schema.properties@[i].0@,
                inner.deep_view(),
            )
            &&& schema.required@.len() > 0 ==> members[at + 1].0 == "required"@ && (members[at
                + 1].1 matches JsonTree::List(names) && names.len() == schema.required@.len() && (
            forall|k: int|
                0 <= k < names.len() ==> #[trigger] names[k] == JsonTree::Text(
                    schema.required@[k]@,
                )))
        }),
{
    let model = schema.deep_view();
    assert(r.deep_view() == schema_tree(model));
    assert(model.properties.len() == schema.properties@.len());
    assert(model.properties[i] == (
        schema.properties@[i].0@,
        schema.properties@[i].1.deep_view(),
    ));
    assert(model.required.len() == schema.required@.len());
    assert forall|k: int| 0 <= k < schema.required@.len() implies model.required[k]
        == (#[trigger] schema.required@[k])@ by {}
    assert(property_trees(model.properties)[i] == (
        model.properties[i].0,
        schema_tree(model.properties[i].1),
    ));
}

proof fn lemma_gemini_drops(members: Seq<(Seq<char>, JsonTree)>, i: int)
    requires
        0 <= i < gemini_members(members).len(),
    ensures
        gemini_members(members)[i].0 != "additionalProperties"@,
    decreases members,
{
    if members.len() > 0 {
        let before = gemini_members(members.drop_last());
        if i < before.len() {
            lemma_gemini_drops(members.drop_last(), i);
        }
    }
}

proof fn lemma_gemini_keeps(members: Seq<(Seq<char>, JsonTree)>, i: int) -> (at: int)
    requires
        0 <= i < members.len(),
        members[i].0 != "additionalProperties"@,
    ensures
        0 <= at < gemini_members(members).len(),
        gemini_members(members)[at].0 == members[i].0,
        members[i].0 != "properties"@ && members[i].0 != "items"@ ==> gemini_members(members)[at].1
            == members[i].1,
        members[i].0 == "items"@ ==> gemini_members(members)[at].1 == gemini_schema(members[i].1),
    decreases members,
{
    reveal_strlit("items");
    reveal_strlit("properties");
    assert("items"@.len() != "properties"@.len());
    if i == members.len() - 1 {
        gemini_members(members.drop_last()).len() as int
    } else {
        lemma_gemini_keeps(members.drop_last(), i)
    }
}

/// A schema for Gemini does not say whether it is open, and says everything else; the schema
/// of its items is treated as it is.
pub proof fn law_gemini_schema_keeps_the_rest(
    schema: &mut Json,
    i: int,
) -> (at: int)
    requires
        call_ensures(sanitize_schema_for_gemini, (schema,), ()),
        old(schema).deep_view() is Object,
        0 <= i < old(schema).deep_view()->Object_0.len(),
        old(schema).deep_view()->Object_0[i].0 != "additionalProperties"@,
    ensures
        final(schema).deep_view() is Object,
        ({
            let before = old(schema).deep_view()->Object_0;
            let after = final(schema).deep_view()->Object_0;
            &&& forall|k: int|
                0 <= k < after.len() ==> (#[trigger] after[k]).0 != "additionalProperties"@
            &&& 0 <= at < after.len()
            &&& after[at].0 == before[i].0
            &&& before[i].0 != "properties"@ && before[i].0 != "items"@ ==> after[at].1
                == before[i].1
        }),
{
    let before = old(schema).deep_view()->Object_0;
    let after = final(schema).deep_view()->Object_0;
    assert(after == gemini_members(before));
    assert forall|k: int| 0 <= k < after.len() implies (#[trigger] after[k]).0
        != "additionalProperties"@ by {
        lemma_gemini_drops(before, k);
    }
    lemma_gemini_keeps(before, i)
}

} // verus!
