use std::collections::HashSet;

use oas3_gen::ast::OperationKind;
use oas3_gen::operation_registry::{
    OperationEntry, OperationFilter, OperationRegistry, OperationRegistryBuilder,
};
use oas3_gen::operation_source::{HttpOperationSource, OperationSource, WebhookOperationSource};
use oas3_gen::registration::{OperationNaming, RegistrationContext, TakenIds};

const DOCUMENT: &str = r#"{
  "openapi": "3.1.0",
  "info": { "title": "Pet Store", "version": "1.0.0" },
  "paths": {
    "/pets": {
      "get": { "operationId": "api_list_pets" },
      "post": { "operationId": "api_create_pet" }
    },
    "/pets/{id}": {
      "get": { "operationId": "api_list_pets" },
      "delete": {}
    }
  },
  "webhooks": {
    "petAdopted": {
      "post": { "operationId": "api_pet_adopted" }
    },
    "petReturned": {
      "put": {},
      "post": { "operationId": "api_pet_returned" }
    }
  }
}"#;

fn document() -> oas3::Spec {
    oas3::from_json(DOCUMENT).unwrap()
}

/// Ids after the document or the path, numbered where they are taken; `api_` is trimmed where
/// every id has it.
struct Names;

impl OperationNaming for Names {
    fn compute_stable_id(&self, method: &str, path: &str, operation_id: Option<&str>) -> String {
        match operation_id {
            Some(id) => id.to_owned(),
            None => {
                let place: String = path
                    .chars()
                    .map(|c| if c.is_ascii_alphanumeric() { c } else { '_' })
                    .collect();
                format!("api_{}_{}", method.to_lowercase(), place)
            }
        }
    }

    fn ensure_unique_snake_case_id(&self, base_id: &str, taken: &TakenIds<'_>) -> String {
        if !taken.contains(base_id) {
            return base_id.to_owned();
        }
        let mut number = 2;
        while taken.contains(&format!("{base_id}_{number}")) {
            number += 1;
        }
        format!("{base_id}_{number}")
    }

    fn trim_common_affixes(&self, ids: &Vec<String>) -> Vec<String> {
        if ids.iter().all(|id| id.starts_with("api_")) {
            ids.iter().map(|id| id["api_".len()..].to_owned()).collect()
        } else {
            ids.clone()
        }
    }

    fn to_rust_type_name(&self, name: &str) -> String {
        name.replace(' ', "")
    }
}

/// Gives operations with one method one id, and leaves an id to the first operation alone.
struct Careless;

impl OperationNaming for Careless {
    fn compute_stable_id(&self, method: &str, _path: &str, _operation_id: Option<&str>) -> String {
        method.to_owned()
    }

    fn ensure_unique_snake_case_id(&self, base_id: &str, _taken: &TakenIds<'_>) -> String {
        base_id.to_owned()
    }

    fn trim_common_affixes(&self, ids: &Vec<String>) -> Vec<String> {
        ids.iter().take(1).cloned().collect()
    }

    fn to_rust_type_name(&self, name: &str) -> String {
        name.to_owned()
    }
}

fn ids(texts: &[&str]) -> HashSet<String> {
    texts.iter().map(|text| text.to_string()).collect()
}

fn entry(id: &str, path: &str) -> OperationEntry {
    OperationEntry {
        stable_id: id.to_owned(),
        method: "GET".to_owned(),
        path: path.to_owned(),
        operation: Default::default(),
        kind: OperationKind::Http,
    }
}

fn summary(entries: &[OperationEntry]) -> Vec<(String, String, String)> {
    entries
        .iter()
        .map(|e| (e.stable_id.clone(), e.method.clone(), e.path.clone()))
        .collect()
}

fn row(id: &str, method: &str, path: &str) -> (String, String, String) {
    (id.to_owned(), method.to_owned(), path.to_owned())
}

#[test]
fn filter_without_sets_accepts_everything() {
    let filter = OperationFilter::new(None, None);
    assert!(filter.accepts("list_pets"));
    assert!(filter.accepts(""));
    assert!(OperationFilter::default().accepts("list_pets"));
}

#[test]
fn filter_with_only_accepts_what_is_asked_for() {
    let only = ids(&["list_pets", "create_pet"]);
    let filter = OperationFilter::new(Some(&only), None);
    assert!(filter.accepts("list_pets"));
    assert!(filter.accepts("create_pet"));
    assert!(!filter.accepts("delete_pet"));
    assert!(!filter.accepts("List_pets"));
}

#[test]
fn filter_with_empty_only_accepts_nothing() {
    let only = ids(&[]);
    assert!(!OperationFilter::new(Some(&only), None).accepts("list_pets"));
}

#[test]
fn filter_with_excluded_rejects_what_is_excluded() {
    let excluded = ids(&["delete_pet"]);
    let filter = OperationFilter::new(None, Some(&excluded));
    assert!(filter.accepts("list_pets"));
    assert!(!filter.accepts("delete_pet"));
}

#[test]
fn filter_exclusion_wins_over_only() {
    let only = ids(&["list_pets", "delete_pet"]);
    let excluded = ids(&["delete_pet"]);
    let filter = OperationFilter::new(Some(&only), Some(&excluded));
    assert!(filter.accepts("list_pets"));
    assert!(!filter.accepts("delete_pet"));
    assert!(!filter.accepts("create_pet"));
}

#[test]
fn filter_copies_its_sets() {
    let mut only = ids(&["list_pets"]);
    let filter = OperationFilter::new(Some(&only), None);
    only.insert("delete_pet".to_owned());
    only.remove("list_pets");
    assert!(filter.accepts("list_pets"));
    assert!(!filter.accepts("delete_pet"));
}

#[test]
fn context_starts_empty() {
    let context = RegistrationContext::default();
    assert!(!context.contains_id("a"));
    assert!(context.ids().is_empty());
    assert!(context.into_entries().is_empty());
}

#[test]
fn registration_appends_new_ids() {
    let mut context = RegistrationContext::default();
    context.register(entry("b", "/b"));
    context.register(entry("a", "/a"));
    assert!(context.contains_id("a"));
    assert!(context.contains_id("b"));
    assert!(!context.contains_id("c"));
    assert_eq!(context.ids(), vec!["b".to_owned(), "a".to_owned()]);
    assert_eq!(
        summary(&context.into_entries()),
        vec![row("b", "GET", "/b"), row("a", "GET", "/a")]
    );
}

#[test]
fn registration_of_a_known_id_replaces_in_place() {
    let mut context = RegistrationContext::default();
    context.register(entry("a", "/1"));
    context.register(entry("b", "/2"));
    context.register(entry("a", "/3"));
    assert_eq!(
        summary(&context.into_entries()),
        vec![row("a", "GET", "/3"), row("b", "GET", "/2")]
    );
}

#[test]
fn registration_twice_is_registration_once() {
    let mut context = RegistrationContext::default();
    context.register(entry("a", "/1"));
    context.register(entry("b", "/2"));
    context.register(entry("b", "/2"));
    assert_eq!(
        summary(&context.into_entries()),
        vec![row("a", "GET", "/1"), row("b", "GET", "/2")]
    );
}

#[test]
fn rekey_renames_in_order() {
    let mut context = RegistrationContext::default();
    for (id, path) in [("x_a", "/1"), ("x_b", "/2"), ("x_c", "/3"), ("x_d", "/4")] {
        context.register(entry(id, path));
    }
    context.rekey(vec!["a".to_owned(), "b".to_owned(), "c".to_owned(), "d".to_owned()]);
    assert_eq!(
        summary(&context.into_entries()),
        vec![
            row("a", "GET", "/1"),
            row("b", "GET", "/2"),
            row("c", "GET", "/3"),
            row("d", "GET", "/4")
        ]
    );
}

#[test]
fn rekey_to_own_ids_changes_nothing() {
    let mut context = RegistrationContext::default();
    context.register(entry("a", "/1"));
    context.register(entry("b", "/2"));
    let own = context.ids();
    context.rekey(own);
    assert_eq!(
        summary(&context.into_entries()),
        vec![row("a", "GET", "/1"), row("b", "GET", "/2")]
    );
}

#[test]
fn rekey_to_one_id_keeps_the_last_operation() {
    let mut context = RegistrationContext::default();
    context.register(entry("a", "/1"));
    context.register(entry("b", "/2"));
    context.register(entry("c", "/3"));
    context.rekey(vec!["z".to_owned(), "y".to_owned(), "z".to_owned()]);
    assert_eq!(
        summary(&context.into_entries()),
        vec![row("z", "GET", "/3"), row("y", "GET", "/2")]
    );
}

#[test]
fn rekey_drops_operations_without_an_id() {
    let mut context = RegistrationContext::default();
    context.register(entry("a", "/1"));
    context.register(entry("b", "/2"));
    context.rekey(vec!["z".to_owned()]);
    assert_eq!(summary(&context.into_entries()), vec![row("z", "GET", "/1")]);
}

#[test]
fn rekey_ignores_ids_without_an_operation() {
    let mut context = RegistrationContext::default();
    context.register(entry("a", "/1"));
    context.rekey(vec!["y".to_owned(), "z".to_owned()]);
    assert_eq!(summary(&context.into_entries()), vec![row("y", "GET", "/1")]);
}

#[test]
fn rekey_may_swap_ids() {
    let mut context = RegistrationContext::default();
    context.register(entry("a", "/1"));
    context.register(entry("b", "/2"));
    context.rekey(vec!["b".to_owned(), "a".to_owned()]);
    assert_eq!(
        summary(&context.into_entries()),
        vec![row("b", "GET", "/1"), row("a", "GET", "/2")]
    );
}

#[test]
fn simplify_keys_asks_the_naming() {
    let mut context = RegistrationContext::default();
    context.register(entry("api_a", "/1"));
    context.register(entry("api_b", "/2"));
    context.simplify_keys(&Names);
    assert_eq!(context.ids(), vec!["a".to_owned(), "b".to_owned()]);
}

#[test]
fn http_source_registers_the_operations_of_paths() {
    let mut context = RegistrationContext::default();
    HttpOperationSource::new(&document()).ingest(&mut context, &OperationFilter::default(), &Names);
    let entries = context.into_entries();
    assert_eq!(
        summary(&entries),
        vec![
            row("api_list_pets", "GET", "/pets"),
            row("api_create_pet", "POST", "/pets"),
            row("api_list_pets_2", "GET", "/pets/{id}"),
            row("api_delete__pets__id_", "DELETE", "/pets/{id}"),
        ]
    );
    assert!(entries.iter().all(|e| e.kind == OperationKind::Http));
    assert_eq!(entries[1].operation.operation_id.as_deref(), Some("api_create_pet"));
    assert_eq!(entries[3].operation.operation_id, None);
}

#[test]
fn http_source_passes_over_rejected_operations() {
    let excluded = ids(&["api_list_pets"]);
    let mut context = RegistrationContext::default();
    HttpOperationSource::new(&document()).ingest(
        &mut context,
        &OperationFilter::new(None, Some(&excluded)),
        &Names,
    );
    assert_eq!(
        context.ids(),
        vec!["api_create_pet".to_owned(), "api_delete__pets__id_".to_owned()]
    );
}

#[test]
fn http_source_of_a_document_without_paths_registers_nothing() {
    let spec = oas3::from_json(
        r#"{ "openapi": "3.1.0", "info": { "title": "", "version": "1" } }"#,
    )
    .unwrap();
    let mut context = RegistrationContext::default();
    HttpOperationSource::new(&spec).ingest(&mut context, &OperationFilter::default(), &Names);
    WebhookOperationSource::new(&spec).ingest(&mut context, &OperationFilter::default(), &Names);
    assert!(context.ids().is_empty());
}

#[test]
fn webhook_source_registers_the_operations_of_webhooks() {
    let mut context = RegistrationContext::default();
    WebhookOperationSource::new(&document()).ingest(
        &mut context,
        &OperationFilter::default(),
        &Names,
    );
    let entries = context.into_entries();
    assert_eq!(
        summary(&entries),
        vec![
            row("api_pet_adopted", "POST", "webhooks/petAdopted"),
            row("api_put_webhooks_petReturned", "PUT", "webhooks/petReturned"),
            row("api_pet_returned", "POST", "webhooks/petReturned"),
        ]
    );
    assert!(entries.iter().all(|e| e.kind == OperationKind::Webhook));
    assert_eq!(entries[0].operation.operation_id.as_deref(), Some("api_pet_adopted"));
}

#[test]
fn webhook_source_passes_over_rejected_operations() {
    let only = ids(&["api_pet_returned"]);
    let mut context = RegistrationContext::default();
    WebhookOperationSource::new(&document()).ingest(
        &mut context,
        &OperationFilter::new(Some(&only), None),
        &Names,
    );
    assert_eq!(context.ids(), vec!["api_pet_returned".to_owned()]);
}

#[test]
fn sources_leave_earlier_entries_alone_where_ids_are_fresh() {
    let mut context = RegistrationContext::default();
    context.register(entry("api_list_pets", "/first"));
    HttpOperationSource::new(&document()).ingest(&mut context, &OperationFilter::default(), &Names);
    let entries = context.into_entries();
    assert_eq!(entries.len(), 5);
    assert_eq!(entries[0].path, "/first");
    assert_eq!(entries[1].stable_id, "api_list_pets_2");
    assert_eq!(entries[3].stable_id, "api_list_pets_3");
}

#[test]
fn sources_replace_entries_where_ids_are_not_fresh() {
    let mut context = RegistrationContext::default();
    HttpOperationSource::new(&document()).ingest(
        &mut context,
        &OperationFilter::default(),
        &Careless,
    );
    assert_eq!(
        summary(&context.into_entries()),
        vec![
            row("GET", "GET", "/pets/{id}"),
            row("POST", "POST", "/pets"),
            row("DELETE", "DELETE", "/pets/{id}"),
        ]
    );
}

#[test]
fn builder_registers_sources_in_order_and_trims_ids() {
    let spec = document();
    let registry = OperationRegistryBuilder::new()
        .with_source(OperationSource::Http(HttpOperationSource::new(&spec)))
        .with_source(OperationSource::Webhook(WebhookOperationSource::new(&spec)))
        .build(&Names);
    assert_eq!(
        summary(registry.operations()),
        vec![
            row("list_pets", "GET", "/pets"),
            row("create_pet", "POST", "/pets"),
            row("list_pets_2", "GET", "/pets/{id}"),
            row("delete__pets__id_", "DELETE", "/pets/{id}"),
            row("pet_adopted", "POST", "webhooks/petAdopted"),
            row("put_webhooks_petReturned", "PUT", "webhooks/petReturned"),
            row("pet_returned", "POST", "webhooks/petReturned"),
        ]
    );
    assert_eq!(registry.len(), 7);
    assert!(!registry.is_empty());
}

#[test]
fn builder_filters_by_untrimmed_ids() {
    let spec = document();
    let only = ids(&["api_create_pet", "pet_adopted"]);
    let registry = OperationRegistryBuilder::new()
        .with_filter(OperationFilter::new(Some(&only), None))
        .with_source(OperationSource::Http(HttpOperationSource::new(&spec)))
        .with_source(OperationSource::Webhook(WebhookOperationSource::new(&spec)))
        .build(&Names);
    assert_eq!(summary(registry.operations()), vec![row("create_pet", "POST", "/pets")]);
}

#[test]
fn builder_misses_no_accepted_operation() {
    let spec = document();
    let excluded = ids(&["api_list_pets", "api_pet_returned"]);
    let registry = OperationRegistryBuilder::new()
        .with_filter(OperationFilter::new(None, Some(&excluded)))
        .with_source(OperationSource::Webhook(WebhookOperationSource::new(&spec)))
        .with_source(OperationSource::Http(HttpOperationSource::new(&spec)))
        .build(&Names);
    assert_eq!(
        summary(registry.operations()),
        vec![
            row("pet_adopted", "POST", "webhooks/petAdopted"),
            row("put_webhooks_petReturned", "PUT", "webhooks/petReturned"),
            row("create_pet", "POST", "/pets"),
            row("delete__pets__id_", "DELETE", "/pets/{id}"),
        ]
    );
}

#[test]
fn builder_keeps_what_the_naming_leaves() {
    let spec = document();
    let registry = OperationRegistryBuilder::new()
        .with_source(OperationSource::Http(HttpOperationSource::new(&spec)))
        .build(&Careless);
    assert_eq!(summary(registry.operations()), vec![row("GET", "GET", "/pets/{id}")]);
}

#[test]
fn registry_without_sources_is_empty() {
    let spec = document();
    let only = ids(&["api_create_pet"]);
    for registry in [
        OperationRegistry::new(&spec, &Names),
        OperationRegistry::with_filters(&spec, Some(&only), None, &Names),
        OperationRegistry::with_filters(&spec, None, Some(&only), &Careless),
        OperationRegistryBuilder::new().build(&Names),
    ] {
        assert!(registry.is_empty());
        assert_eq!(registry.len(), 0);
        assert!(registry.operations().is_empty());
    }
}
