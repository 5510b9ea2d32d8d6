//! Reading API descriptions.

use cielago::json::Node;
use cielago::model::{AuthKind, LabelMode, Method, SavedRequest};
use cielago::openapi::docs::{body_docs, param_doc, response_docs, type_label, MAX_BODY_DEPTH, MAX_BODY_FIELDS};
use cielago::openapi::examples::example_for_schema;
use cielago::openapi::loader::{choose_reading, collection_name, is_remote};
use cielago::openapi::resolve::{deref, resolve_pointer};
use cielago::openapi::{import_spec, parse_spec};

fn json(text: &str) -> Node {
    parse_spec(text).unwrap()
}

/// As deep as a type is ever described.
const WHOLE: usize = 5;

// ----- docs -----

#[test]
fn parameter_types_enums_and_requiredness() {
    let doc = json("{}");
    let p = json(
        r#"{
            "name": "status",
            "in": "query",
            "required": true,
            "description": "Status values to filter by",
            "schema": {"type": "string", "enum": ["available", "pending", "sold"], "default": "available"}
        }"#,
    );
    let d = param_doc(&doc, &p);
    assert_eq!(d.name, "status");
    assert_eq!(d.location, "query");
    assert_eq!(d.ty, "string");
    assert!(d.required);
    assert_eq!(d.options, ["available", "pending", "sold"]);
    assert_eq!(d.default.as_deref(), Some("available"));
    assert_eq!(d.description.as_deref(), Some("Status values to filter by"));
}

#[test]
fn path_params_are_required_even_when_unflagged() {
    let doc = json("{}");
    let p = json(r#"{"name": "petId", "in": "path", "schema": {"type": "integer", "format": "int64"}}"#);
    let d = param_doc(&doc, &p);
    assert!(d.required);
    assert_eq!(d.ty, "integer(int64)");
}

#[test]
fn array_params_expose_item_options() {
    let doc = json("{}");
    let p = json(
        r#"{
            "name": "tags",
            "in": "query",
            "schema": {"type": "array", "items": {"type": "string", "enum": ["a", "b"]}}
        }"#,
    );
    let d = param_doc(&doc, &p);
    assert_eq!(d.ty, "array<string>");
    assert_eq!(d.options, ["a", "b"]);
}

#[test]
fn body_is_flattened_to_dotted_paths() {
    let doc = json(
        r##"{
            "components": {"schemas": {
                "Address": {"type": "object", "required": ["zip"], "properties": {
                    "zip": {"type": "string"}
                }}
            }}
        }"##,
    );
    let schema = json(
        r##"{
            "type": "object",
            "required": ["name"],
            "properties": {
                "name": {"type": "string"},
                "owner": {"type": "object", "properties": {
                    "address": {"$ref": "#/components/schemas/Address"}
                }},
                "pets": {"type": "array", "items": {"type": "object", "properties": {
                    "tag": {"type": "string", "enum": ["cat", "dog"]}
                }}}
            }
        }"##,
    );
    let docs = body_docs(&doc, &schema);
    let names: Vec<&str> = docs.iter().map(|d| d.name.as_str()).collect();
    assert_eq!(
        names,
        [
            "name",
            "owner",
            "owner.address",
            "owner.address.zip",
            "pets",
            "pets[].tag"
        ]
    );
    assert!(docs[0].required);
    assert!(!docs[1].required);
    let zip = docs.iter().find(|d| d.name == "owner.address.zip").unwrap();
    assert!(zip.required, "requiredness comes from the owning object");
    let tag = docs.iter().find(|d| d.name == "pets[].tag").unwrap();
    assert_eq!(tag.options, ["cat", "dog"]);
    assert_eq!(
        docs.iter().find(|d| d.name == "pets").unwrap().ty,
        "array<object>"
    );
    assert!(docs.iter().all(|d| d.location == "body"));
}

#[test]
fn all_of_members_contribute_fields() {
    let doc = json("{}");
    let schema = json(
        r#"{"allOf": [
            {"type": "object", "required": ["id"], "properties": {"id": {"type": "integer"}}},
            {"type": "object", "properties": {"note": {"type": "string"}}}
        ]}"#,
    );
    let docs = body_docs(&doc, &schema);
    let names: Vec<&str> = docs.iter().map(|d| d.name.as_str()).collect();
    assert_eq!(names, ["id", "note"]);
    assert!(docs[0].required);
}

#[test]
fn non_object_body_gets_one_row() {
    let doc = json("{}");
    let docs = body_docs(&doc, &json(r#"{"type": "string", "format": "binary"}"#));
    assert_eq!(docs.len(), 1);
    assert_eq!(docs[0].name, "(body)");
    assert_eq!(docs[0].ty, "string(binary)");
}

fn self_referring() -> Node {
    json(
        r##"{
            "components": {"schemas": {
                "Node": {"type": "object", "properties": {
                    "child": {"$ref": "#/components/schemas/Node"}
                }}
            }}
        }"##,
    )
}

#[test]
fn recursive_schemas_terminate() {
    let doc = self_referring();
    let docs = body_docs(&doc, &json(r##"{"$ref": "#/components/schemas/Node"}"##));
    assert!(!docs.is_empty());
    assert!(docs.len() <= MAX_BODY_DEPTH + 1, "{}", docs.len());
}

#[test]
fn union_and_nullable_types_read_as_written() {
    let doc = json("{}");
    assert_eq!(
        type_label(&doc, &json(r#"{"type": ["string", "null"]}"#), WHOLE),
        "string | null"
    );
    assert_eq!(
        type_label(
            &doc,
            &json(r#"{"oneOf": [{"type": "string"}, {"type": "integer"}]}"#),
            WHOLE
        ),
        "string | integer"
    );
    assert_eq!(type_label(&doc, &json("{}"), WHOLE), "any");
}

#[test]
fn large_bodies_are_cut_off() {
    let fields: Vec<String> = (0..300).map(|i| format!("\"f{i}\": {{\"type\": \"string\"}}")).collect();
    let schema = json(&format!(
        "{{\"type\": \"object\", \"properties\": {{{}}}}}",
        fields.join(", ")
    ));
    let docs = body_docs(&json("{}"), &schema);
    assert_eq!(docs.len(), MAX_BODY_FIELDS);
    assert_eq!(docs[199].name, "f199");
}

#[test]
fn responses_are_documented_like_bodies() {
    let schema = json(r#"{"type": "object", "properties": {"id": {"type": "integer"}}}"#);
    let docs = response_docs(&json("{}"), &schema);
    assert_eq!(docs.len(), 1);
    assert_eq!(docs[0].name, "id");
    assert_eq!(docs[0].location, "response");
}

// ----- examples -----

#[test]
fn prefers_authored_example() {
    let doc = json("{}");
    let schema = json(r#"{"type": "integer", "example": 42}"#);
    assert_eq!(example_for_schema(&doc, &schema), json("42"));
}

#[test]
fn generates_object_with_refs() {
    let doc = json(
        r#"{
            "components": { "schemas": {
                "Pet": {
                    "type": "object",
                    "properties": {
                        "id": {"type": "integer", "format": "int64"},
                        "name": {"type": "string"},
                        "tag": {"type": "string", "default": "friendly"}
                    }
                }
            }}
        }"#,
    );
    let schema = json(r##"{"$ref": "#/components/schemas/Pet"}"##);
    let v = example_for_schema(&doc, &schema);
    assert_eq!(
        v,
        json(r#"{"id": 1, "name": "string", "tag": "friendly"}"#)
    );
}

#[test]
fn uuid_format_becomes_variable() {
    let doc = json("{}");
    let schema = json(r#"{"type": "string", "format": "uuid"}"#);
    assert_eq!(
        example_for_schema(&doc, &schema),
        Node::Text("{{uuid}}".to_string())
    );
}

#[test]
fn all_of_merges() {
    let doc = json("{}");
    let schema = json(
        r#"{"allOf": [
            {"type": "object", "properties": {"a": {"type": "integer"}}},
            {"type": "object", "properties": {"b": {"type": "boolean"}}}
        ]}"#,
    );
    assert_eq!(
        example_for_schema(&doc, &schema),
        json(r#"{"a": 1, "b": true}"#)
    );
}

#[test]
fn terminates_on_self_reference() {
    let doc = self_referring();
    let schema = json(r##"{"$ref": "#/components/schemas/Node"}"##);
    let _ = example_for_schema(&doc, &schema); // must terminate
}

#[test]
fn numbers_have_a_fraction_where_they_may() {
    let doc = json("{}");
    let n = example_for_schema(&doc, &json(r#"{"type": "number"}"#));
    assert_eq!(n.plain(), "1.0");
    let i = example_for_schema(&doc, &json(r#"{"type": "integer"}"#));
    assert_eq!(i.plain(), "1");
}

// ----- loading -----

#[test]
fn parses_json_and_yaml() {
    let text = r#"{"openapi":"3.0.0"}"#;
    assert_eq!(
        parse_spec(text).unwrap().get("openapi").unwrap().as_str(),
        Some("3.0.0")
    );

    let yaml = "openapi: 3.1.0\ninfo:\n  title: t\n";
    let v = parse_spec(yaml).unwrap();
    assert_eq!(v.get("openapi").unwrap().as_str(), Some("3.1.0"));
    assert_eq!(v.get("info").unwrap().get("title").unwrap().as_str(), Some("t"));
}

#[test]
fn rejects_garbage() {
    assert!(parse_spec("\u{1}\u{2}not a spec at all: [").is_err());
}

#[test]
fn json_is_tried_before_yaml() {
    let a = Node::Text("a".to_string());
    let b = Node::Text("b".to_string());
    assert_eq!(choose_reading(Ok(a), Ok(b)).unwrap().as_str(), Some("a"));
    let b = Node::Text("b".to_string());
    assert_eq!(
        choose_reading(Err("no".to_string()), Ok(b)).unwrap().as_str(),
        Some("b")
    );
    let e = choose_reading(Err("no".to_string()), Err("neither".to_string())).unwrap_err();
    assert_eq!(e.cause, "neither");
    assert!(e.message().contains("neither"));
}

#[test]
fn sources_and_names() {
    assert!(is_remote("http://x") && is_remote("https://x"));
    assert!(!is_remote("spec.yaml") && !is_remote("ftp://x"));
    let doc = json(r#"{"info": {"title": "Pets"}}"#);
    assert_eq!(collection_name(None, &doc), "Pets");
    assert_eq!(collection_name(Some("mine".to_string()), &doc), "mine");
    assert_eq!(collection_name(None, &json("{}")), "imported");
}

// ----- references -----

#[test]
fn derefs_local_ref() {
    let doc = json(
        r##"{
            "components": { "schemas": { "Pet": { "type": "object" } } },
            "node": { "$ref": "#/components/schemas/Pet" }
        }"##,
    );
    let node = deref(&doc, doc.get("node").unwrap());
    assert_eq!(node.text("type"), Some("object"));
}

#[test]
fn survives_ref_cycles() {
    let doc = json(
        r##"{
            "components": { "schemas": {
                "A": { "$ref": "#/components/schemas/B" },
                "B": { "$ref": "#/components/schemas/A" }
            } },
            "node": { "$ref": "#/components/schemas/A" }
        }"##,
    );
    // must terminate
    let _ = deref(&doc, doc.get("node").unwrap());
}

#[test]
fn passes_through_concrete_nodes() {
    let doc = json(r#"{"node": {"type": "string"}}"#);
    let node = deref(&doc, doc.get("node").unwrap());
    assert_eq!(node.text("type"), Some("string"));
}

#[test]
fn pointers_unescape_tildes_and_index_arrays() {
    let doc = json(r##"{"a/b": {"~": [10, 20]}}"##);
    let v = resolve_pointer(&doc, "#/a~1b/~0/1").unwrap();
    assert_eq!(v.as_u64(), Some(20));
    assert!(resolve_pointer(&doc, "other.json#/a").is_none());
    assert!(doc.pointer("/a~1b/~0/01").is_none());
    assert!(doc.pointer("").is_some());
}

// ----- importing -----

#[test]
fn summary_wins_over_operation_id_for_naming() {
    let doc = json(
        r#"{
            "paths": {
                "/v1/customers/{id}": {
                    "get": {
                        "operationId": "CustomerControllerV1_retrieveCustomerById",
                        "summary": "Get customer",
                        "tags": ["customers"]
                    }
                },
                "/v1/health": { "get": { "operationId": "healthCheck" } },
                "/v1/ping": { "get": {} }
            }
        }"#,
    );
    let c = import_spec(&doc, "svc", None);

    let cust = c
        .requests
        .iter()
        .find(|r| r.path.contains("customers"))
        .unwrap();
    assert_eq!(cust.name, "Get customer");
    assert_eq!(cust.summary.as_deref(), Some("Get customer"));
    assert_eq!(
        cust.operation_id.as_deref(),
        Some("CustomerControllerV1_retrieveCustomerById")
    );

    // operationId is the fallback when there's no summary.
    let health = c.requests.iter().find(|r| r.path == "/v1/health").unwrap();
    assert_eq!(health.name, "healthCheck");
    assert_eq!(health.summary, None);

    // Neither present: METHOD + path.
    let ping = c.requests.iter().find(|r| r.path == "/v1/ping").unwrap();
    assert_eq!(ping.name, "GET /v1/ping");
}

#[test]
fn label_mode_selects_the_displayed_text() {
    let doc = json(
        r#"{
            "paths": {
                "/v1/customers/{id}": {
                    "get": { "operationId": "CustomerControllerV1_get", "summary": "Get customer" }
                }
            }
        }"#,
    );
    let c = import_spec(&doc, "svc", None);
    let r = &c.requests[0];
    assert_eq!(r.label(LabelMode::Name), "Get customer");
    assert_eq!(r.label(LabelMode::Summary), "Get customer");
    assert_eq!(r.label(LabelMode::Path), "/v1/customers/{id}");

    // No summary: Summary mode falls back to the name rather than blanking.
    let mut bare = SavedRequest::blank("hand made");
    bare.path = "/thing".into();
    assert_eq!(bare.label(LabelMode::Summary), "hand made");
    assert_eq!(bare.label(LabelMode::Path), "/thing");
}

const PETS: &str = r#"
openapi: 3.0.0
info: {title: Pets}
servers:
  - url: https://api.pets.example.com/v1/
  - url: https://staging.pets.example.com/v1
  - url: https://api.pets.example.com/v1
components:
  securitySchemes:
    oauth:
      type: oauth2
      flows:
        clientCredentials:
          tokenUrl: https://auth.pets.example.com/oauth/token
          scopes: {"read:pets": read, "write:pets": write}
  parameters:
    petId: {name: petId, in: path, schema: {type: integer, format: int64}, example: 123}
paths:
  /pets:
    parameters:
      - {name: X-Tenant-Id, in: header, required: true, example: acme}
    get:
      operationId: listPets
      description: Lists pets, newest first.
      tags: [pets]
      parameters:
        - {name: limit, in: query, description: How many pets to return., schema: {type: integer, default: 20}}
        - {name: filter, in: query, schema: {type: string}}
    post:
      operationId: createPet
      requestBody:
        content:
          application/json:
            example: {name: Fido}
            schema: {type: object, required: [name], properties: {name: {type: string}}}
  /pets/{petId}:
    get:
      operationId: getPet
      parameters:
        - $ref: '#/components/parameters/petId'
"#;

#[test]
fn a_description_becomes_a_collection() {
    let c = import_spec(&json(PETS), "pets", Some("pets.yaml".to_string()));
    assert_eq!(c.name, "pets");
    assert_eq!(c.spec_source.as_deref(), Some("pets.yaml"));
    assert_eq!(
        c.servers,
        vec![
            "https://api.pets.example.com/v1",
            "https://staging.pets.example.com/v1"
        ]
    );
    let auth = c.auth.as_ref().unwrap();
    assert_eq!(auth.kind, AuthKind::Oauth2);
    assert_eq!(auth.token_url, "https://auth.pets.example.com/oauth/token");
    assert_eq!(auth.scopes, vec!["read:pets", "write:pets"]);
    assert!(auth.client_id.is_empty());

    assert_eq!(c.requests.len(), 3);
    let list = &c.requests[0];
    assert_eq!(list.name, "listPets");
    assert_eq!(list.method, Method::Get);
    assert_eq!(list.description.as_deref(), Some("Lists pets, newest first."));
    let limit = list.query.iter().find(|q| q.key == "limit").unwrap();
    assert!(!limit.enabled);
    assert_eq!(limit.value, "20");
    let tenant = &list.headers[0];
    assert_eq!((tenant.key.as_str(), tenant.value.as_str()), ("X-Tenant-Id", "acme"));
    assert!(tenant.enabled);
    let doc = list.docs.iter().find(|d| d.name == "limit").unwrap();
    assert_eq!(doc.location, "query");
    assert_eq!(doc.default.as_deref(), Some("20"));

    let create = &c.requests[1];
    assert_eq!(create.method, Method::Post);
    assert!(create.body.as_deref().unwrap().contains("\"name\": \"Fido\""));
    assert!(create.docs.iter().any(|d| d.location == "body" && d.name == "name" && d.required));

    let get_pet = &c.requests[2];
    assert_eq!(get_pet.path_params[0].key, "petId");
    assert_eq!(get_pet.path_params[0].value, "123");
    assert!(get_pet.path_params[0].enabled);
}
