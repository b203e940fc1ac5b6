use std::cell::RefCell;
use std::collections::{BTreeSet, HashMap, HashSet};

use oas3_gen::ast::{
    EnumDef, OperationInfo, OperationKind, OperationParameter, ParameterLocation, RustType,
};
use oas3_gen::backend::{
    CodegenConfig, ConvertedOperation, EnumCasePolicy, EnumDeserializePolicy, EnumHelperPolicy,
    GeneratorBackend, LoadedSchemas, NameScan, ODataPolicy, ObjectSchema, SchemaKey,
};
use oas3_gen::conversion::{
    absorb_operation, absorb_schema, convert_all_operations, convert_all_schemas,
    sort_for_conversion,
};
use oas3_gen::operation_registry::{OperationEntry, OperationRegistry, OperationRegistryBuilder};
use oas3_gen::operation_source::{HttpOperationSource, OperationSource, WebhookOperationSource};
use oas3_gen::orchestrator::{Orchestrator, OAS3_GEN_VERSION};
use oas3_gen::registration::{OperationNaming, TakenIds};
use oas3_gen::report::GenerationWarning;

/// Answers from fixed lists and logs what it is asked.
#[derive(Debug, Default)]
struct Scripted {
    log: RefCell<Vec<String>>,
    schemas: Vec<(&'static str, Option<usize>)>,
    reachable: Vec<&'static str>,
    failing: Vec<&'static str>,
    config: RefCell<Option<(EnumCasePolicy, EnumHelperPolicy, EnumDeserializePolicy, ODataPolicy)>>,
}

impl Scripted {
    fn note(&self, text: String) {
        self.log.borrow_mut().push(text);
    }

    fn fails(&self, what: &str) -> bool {
        self.failing.iter().any(|name| *name == what)
    }

    fn write(&self, what: &str, source_path: &str, version: &str) -> Result<String, String> {
        self.note(format!("write {what}"));
        if self.fails(what) {
            Err(format!("cannot write {what}"))
        } else {
            Ok(format!("{what} from {source_path} by {version}"))
        }
    }
}

impl OperationNaming for Scripted {
    fn compute_stable_id(&self, method: &str, path: &str, operation_id: Option<&str>) -> String {
        operation_id.map(str::to_owned).unwrap_or_else(|| format!("{method} {path}"))
    }

    fn ensure_unique_snake_case_id(&self, base_id: &str, _taken: &TakenIds<'_>) -> String {
        base_id.to_owned()
    }

    fn trim_common_affixes(&self, ids: &Vec<String>) -> Vec<String> {
        ids.clone()
    }

    fn to_rust_type_name(&self, name: &str) -> String {
        name.replace(' ', "")
    }
}

impl GeneratorBackend for Scripted {
    type Visibility = &'static str;
    type Graph = String;
    type Schema = String;
    type Names = Vec<String>;
    type EnumNames = usize;
    type Cache = Vec<String>;
    type Context = Vec<String>;
    type Definition = String;
    type OperationDetail = u32;
    type Recorder = u32;
    type UsageMap = String;
    type Client = String;
    type Lints = &'static str;
    type Tokens = String;
    type Error = String;

    fn from_spec(&self, spec: oas3::Spec) -> LoadedSchemas<String> {
        self.note(format!("load {}", spec.info.title));
        LoadedSchemas {
            graph: "loaded".to_owned(),
            warnings: vec![GenerationWarning::SchemaConversionFailed {
                schema_name: "Scanned".to_owned(),
                error: "bad reference".to_owned(),
            }],
        }
    }

    fn build_dependencies(&self, graph: String) -> String {
        self.note(format!("dependencies of {graph}"));
        "graph".to_owned()
    }

    fn detect_cycles(&self, graph: &String) -> Vec<Vec<String>> {
        self.note(format!("cycles of {graph}"));
        vec![vec!["A".to_owned(), "B".to_owned()], vec!["C".to_owned()]]
    }

    fn reachable(&self, graph: &String, registry: &OperationRegistry) -> BTreeSet<String> {
        self.note(format!("reachable in {graph} from {}", registry.len()));
        self.reachable.iter().map(|name| name.to_string()).collect()
    }

    fn keys(&self, _graph: &String) -> Vec<String> {
        self.schemas.iter().map(|(name, _)| name.to_string()).collect()
    }

    fn contains(&self, graph: &String, schema_name: &str) -> bool {
        self.get(graph, schema_name).is_some()
    }

    fn get(&self, _graph: &String, schema_name: &str) -> Option<ObjectSchema<String>> {
        self.schemas.iter().find(|(name, _)| *name == schema_name).and_then(|(name, values)| {
            values.map(|enum_values| ObjectSchema { enum_values, definition: format!("<{name}>") })
        })
    }

    fn scan_and_compute_names(
        &self,
        graph: &String,
    ) -> Result<NameScan<Vec<String>, usize>, String> {
        self.note(format!("names of {graph}"));
        if self.fails("names") {
            Err("no names".to_owned())
        } else {
            Ok(NameScan { names: vec!["Scanned".to_owned()], enum_names: 7 })
        }
    }

    fn no_names(&self) -> NameScan<Vec<String>, usize> {
        NameScan { names: Vec::new(), enum_names: 0 }
    }

    fn new_cache(&self) -> Vec<String> {
        vec!["cache".to_owned()]
    }

    fn set_precomputed_names(
        &self,
        mut cache: Vec<String>,
        names: Vec<String>,
        enum_names: usize,
    ) -> Vec<String> {
        cache.push(format!("{names:?} {enum_names}"));
        cache
    }

    fn new_context(
        &self,
        graph: &String,
        config: CodegenConfig,
        cache: Vec<String>,
        reachable: Option<&BTreeSet<String>>,
    ) -> Vec<String> {
        let mut custom: Vec<String> =
            config.customizations.iter().map(|(key, value)| format!("{key}={value}")).collect();
        custom.sort();
        self.note(format!("open {graph} with {} {:?} {:?}", cache.join(" "), reachable, custom));
        *self.config.borrow_mut() = Some((
            config.enum_case,
            config.enum_helpers,
            config.enum_deserialize,
            config.odata,
        ));
        Vec::new()
    }

    fn register_schema(
        &self,
        mut context: Vec<String>,
        schema: &ObjectSchema<String>,
        schema_name: &str,
    ) -> (Vec<String>, Result<(), String>) {
        context.push(format!("register {schema_name}{}", schema.definition));
        let answer = if self.fails("register") { Err("taken".to_owned()) } else { Ok(()) };
        (context, answer)
    }

    fn convert_schema(
        &self,
        mut context: Vec<String>,
        schema_name: &str,
        schema: &ObjectSchema<String>,
    ) -> (Vec<String>, Result<Vec<RustType<String>>, String>) {
        context.push(format!("convert {schema_name}{}", schema.definition));
        let outcome = if self.fails(schema_name) {
            Err("type".to_owned())
        } else {
            Ok(vec![RustType::Struct(schema_name.to_owned())])
        };
        (context, outcome)
    }

    fn new_recorder(&self) -> u32 {
        100
    }

    fn convert_operation(
        &self,
        mut context: Vec<String>,
        recorder: u32,
        entry: &OperationEntry,
    ) -> (Vec<String>, u32, Result<ConvertedOperation<String, u32>, String>) {
        context.push(format!("operation {}", entry.stable_id));
        let outcome = if self.fails(&entry.stable_id) {
            Err("response".to_owned())
        } else {
            Ok(ConvertedOperation {
                types: vec![
                    RustType::ResponseEnum(entry.stable_id.clone()),
                    RustType::TypeAlias(entry.stable_id.clone()),
                ],
                operation_info: OperationInfo {
                    operation_id: entry.stable_id.clone(),
                    kind: entry.kind,
                    parameters: vec![
                        OperationParameter {
                            original_name: Some("X-Id".to_owned()),
                            parameter_location: Some(ParameterLocation::Header),
                        },
                        OperationParameter {
                            original_name: Some(format!("x-{}", entry.stable_id)),
                            parameter_location: Some(ParameterLocation::Header),
                        },
                    ],
                    warnings: vec!["first".to_owned(), "second".to_owned()],
                    detail: recorder,
                },
            })
        };
        (context, recorder + 1, outcome)
    }

    fn error_text(&self, error: &String) -> String {
        format!("no {error}")
    }

    fn take_cache(&self, context: Vec<String>) -> Vec<String> {
        context
    }

    fn into_types(&self, cache: Vec<String>) -> Vec<RustType<String>> {
        self.note(format!("cached after {}", cache.join(", ")));
        vec![RustType::Enum(EnumDef {
            definition: "Cached".to_owned(),
            methods: vec!["new".to_owned()],
        })]
    }

    fn into_usage_map(&self, recorder: u32) -> String {
        format!("use {recorder}")
    }

    fn analyze(
        &self,
        mut rust_types: Vec<RustType<String>>,
        mut operations_info: Vec<OperationInfo<u32>>,
        usage: String,
    ) -> (Vec<RustType<String>>, Vec<OperationInfo<u32>>) {
        self.note(format!(
            "analyze {} {} {usage}",
            rust_types.len(),
            operations_info.len()
        ));
        rust_types.push(RustType::Struct("Analyzed".to_owned()));
        operations_info.push(OperationInfo {
            operation_id: "analyzed".to_owned(),
            kind: OperationKind::Http,
            parameters: vec![OperationParameter {
                original_name: Some("x-id".to_owned()),
                parameter_location: Some(ParameterLocation::Header),
            }],
            warnings: Vec::new(),
            detail: 0,
        });
        (rust_types, operations_info)
    }

    fn define_client(
        &self,
        name: String,
        info: &oas3::spec::Info,
        servers: &Vec<oas3::spec::Server>,
    ) -> String {
        let urls: Vec<&str> = servers.iter().map(|server| server.url.as_str()).collect();
        self.note(format!("client {name} for {} at {}", info.version, urls.join(" ")));
        name
    }

    fn default_lints(&self) -> &'static str {
        "lints"
    }

    fn type_tokens(&self, rust_types: &Vec<RustType<String>>, visibility: &&'static str) -> String {
        format!("{visibility} types {}", rust_types.len())
    }

    fn client_tokens(
        &self,
        client: &String,
        operations_info: &Vec<OperationInfo<u32>>,
        rust_types: &Vec<RustType<String>>,
        visibility: &&'static str,
        types_import: bool,
    ) -> String {
        let import = if types_import { "importing" } else { "beside" };
        format!("{visibility} {client} {} {import} {}", operations_info.len(), rust_types.len())
    }

    fn generate_source(
        &self,
        tokens: &String,
        client: &String,
        lints: Option<&&'static str>,
        source_path: &str,
        version: &str,
    ) -> Result<String, String> {
        self.write(&format!("{tokens} of {client} {lints:?}"), source_path, version)
    }

    fn generate_file(
        &self,
        rust_types: &Vec<RustType<String>>,
        visibility: &&'static str,
        client: &String,
        lints: &&'static str,
        source_path: &str,
        version: &str,
    ) -> Result<String, String> {
        let what = format!("{visibility} file {} of {client} {lints}", rust_types.len());
        self.write(&what, source_path, version)
    }

    fn generate_mod_file(
        &self,
        client: &String,
        visibility: &&'static str,
        source_path: &str,
        version: &str,
    ) -> Result<String, String> {
        self.write(&format!("{visibility} root of {client}"), source_path, version)
    }
}

fn document(title: &str) -> oas3::Spec {
    oas3::from_json(format!(
        r#"{{
  "openapi": "3.1.0",
  "info": {{ "title": "{title}", "version": "2.5" }},
  "servers": [{{ "url": "https://a.test" }}, {{ "url": "https://b.test" }}],
  "paths": {{
    "/pets": {{
      "get": {{ "operationId": "list" }},
      "post": {{ "operationId": "create" }}
    }}
  }},
  "webhooks": {{ "adopted": {{ "post": {{ "operationId": "adopted" }} }} }}
}}"#
    ))
    .unwrap()
}

fn registry(backend: &Scripted) -> OperationRegistry {
    let spec = document("Pets");
    OperationRegistryBuilder::new()
        .with_source(OperationSource::Http(HttpOperationSource::new(&spec)))
        .with_source(OperationSource::Webhook(WebhookOperationSource::new(&spec)))
        .build(backend)
}

fn run(title: &str, include_unused_schemas: bool, backend: Scripted) -> Orchestrator<Scripted> {
    Orchestrator::new(
        document(title),
        "pub",
        include_unused_schemas,
        None,
        None,
        false,
        false,
        false,
        false,
        HashMap::new(),
        backend,
    )
}

fn pets() -> Scripted {
    Scripted {
        schemas: vec![
            ("Pet", Some(0)),
            ("Kind", Some(3)),
            ("Lost", None),
            ("Owner", Some(0)),
            ("Size", Some(1)),
        ],
        reachable: vec!["Pet", "Kind"],
        ..Scripted::default()
    }
}

fn names(types: &[RustType<String>]) -> Vec<&str> {
    types
        .iter()
        .map(|item| match item {
            RustType::Struct(name) => name.as_str(),
            RustType::Enum(def) => def.definition.as_str(),
            RustType::TypeAlias(name) => name.as_str(),
            RustType::DiscriminatedEnum(name) => name.as_str(),
            RustType::ResponseEnum(name) => name.as_str(),
        })
        .collect()
}

fn texts(warnings: &[GenerationWarning]) -> Vec<String> {
    warnings.iter().map(|warning| warning.to_string()).collect()
}

#[test]
fn schemas_with_enum_values_are_converted_first() {
    let keys: Vec<SchemaKey<()>> = pets()
        .schemas
        .iter()
        .map(|(name, values)| SchemaKey {
            name: name.to_string(),
            schema: values.map(|enum_values| ObjectSchema { enum_values, definition: () }),
        })
        .collect();
    let order: Vec<String> = sort_for_conversion(keys).into_iter().map(|key| key.name).collect();
    assert_eq!(order, vec!["Kind", "Size", "Pet", "Lost", "Owner"]);
}

#[test]
fn no_schemas_to_sort() {
    assert!(sort_for_conversion(Vec::<SchemaKey<()>>::new()).is_empty());
}

#[test]
fn converted_schemas_are_taken_in() {
    let mut types = vec![RustType::Struct(1)];
    let mut warnings = Vec::new();
    absorb_schema(&mut types, &mut warnings, "Pet", Ok(vec![
        RustType::Struct(2),
        RustType::TypeAlias(3),
    ]));
    assert_eq!(types.len(), 3);
    assert!(matches!(types[2], RustType::TypeAlias(3)));
    assert!(warnings.is_empty());
}

#[test]
fn failed_schemas_are_reported() {
    let mut types = vec![RustType::Struct(1)];
    let mut warnings = Vec::new();
    absorb_schema(&mut types, &mut warnings, "Pet", Err("no type".to_owned()));
    assert_eq!(types.len(), 1);
    assert_eq!(texts(&warnings), vec!["Failed to convert schema 'Pet': no type"]);
}

#[test]
fn failed_operations_are_reported() {
    let backend = pets();
    let registry = registry(&backend);
    let mut types: Vec<RustType<String>> = Vec::new();
    let mut infos: Vec<OperationInfo<u32>> = Vec::new();
    let mut warnings = Vec::new();
    absorb_operation(
        &mut types,
        &mut infos,
        &mut warnings,
        &registry.operations()[2],
        Err("no response".to_owned()),
    );
    assert!(types.is_empty());
    assert!(infos.is_empty());
    assert_eq!(
        texts(&warnings),
        vec!["Failed to convert operation 'POST webhooks/adopted': no response"]
    );
}

#[test]
fn all_schemas_are_registered_before_any_is_converted() {
    let backend = Scripted { failing: vec!["Pet"], ..pets() };
    let graph = "graph".to_owned();
    let converted = convert_all_schemas(&backend, &graph, Vec::new(), None);
    assert_eq!(
        converted.context,
        vec![
            "register Kind<Kind>",
            "register Size<Size>",
            "register Pet<Pet>",
            "register Owner<Owner>",
            "convert Kind<Kind>",
            "convert Size<Size>",
            "convert Pet<Pet>",
            "convert Owner<Owner>",
        ]
    );
    assert_eq!(names(&converted.rust_types), vec!["Kind", "Size", "Owner"]);
    assert_eq!(texts(&converted.warnings), vec!["Failed to convert schema 'Pet': no type"]);
}

#[test]
fn failed_registrations_are_ignored() {
    let graph = "graph".to_owned();
    let ignored = Scripted { failing: vec!["register"], ..pets() };
    let converted = convert_all_schemas(&ignored, &graph, Vec::new(), None);
    let other = convert_all_schemas(&pets(), &graph, Vec::new(), None);
    assert_eq!(converted.context, other.context);
    assert_eq!(names(&converted.rust_types), names(&other.rust_types));
    assert!(converted.warnings.is_empty());
}

#[test]
fn schemas_are_converted_whatever_is_reachable() {
    let graph = "graph".to_owned();
    let none = BTreeSet::new();
    let some: BTreeSet<String> = ["Pet".to_owned()].into_iter().collect();
    let backend = Scripted { failing: vec!["Pet"], ..pets() };
    let all = convert_all_schemas(&backend, &graph, Vec::new(), None);
    for reachable in [&none, &some] {
        let converted = convert_all_schemas(&backend, &graph, Vec::new(), Some(reachable));
        assert_eq!(converted.context, all.context);
        assert_eq!(names(&converted.rust_types), names(&all.rust_types));
        assert_eq!(texts(&converted.warnings), texts(&all.warnings));
        assert_eq!(converted.console, all.console);
    }
}

#[test]
fn console_announces_and_reports_missing_schemas() {
    let graph = "graph".to_owned();
    let converted = convert_all_schemas(&pets(), &graph, Vec::new(), None);
    assert_eq!(
        converted.console,
        vec!["has BetaJsonValue? false", "Schema not found in graph: Lost"]
    );
    let backend = Scripted { schemas: vec![("BetaJsonValue", Some(0))], ..Scripted::default() };
    let converted = convert_all_schemas(&backend, &graph, Vec::new(), None);
    assert_eq!(converted.console, vec!["has BetaJsonValue? true"]);
}

#[test]
fn operations_are_converted_in_order() {
    let backend = Scripted { failing: vec!["create"], ..pets() };
    let registry = registry(&backend);
    let converted = convert_all_operations(&backend, Vec::new(), registry.operations());
    assert_eq!(
        converted.context,
        vec!["operation list", "operation create", "operation adopted"]
    );
    assert_eq!(converted.usage_recorder, 103);
    assert_eq!(names(&converted.rust_types), vec!["list", "list", "adopted", "adopted"]);
    let infos: Vec<(&str, OperationKind, u32)> = converted
        .operations_info
        .iter()
        .map(|info| (info.operation_id.as_str(), info.kind, info.detail))
        .collect();
    assert_eq!(
        infos,
        vec![("list", OperationKind::Http, 100), ("adopted", OperationKind::Webhook, 102)]
    );
    assert_eq!(
        texts(&converted.warnings),
        vec![
            "[list] first",
            "[list] second",
            "Failed to convert operation 'POST /pets': no response",
            "[adopted] first",
            "[adopted] second",
        ]
    );
    let skipped = converted.warnings.iter().filter(|w| w.is_skipped_item()).count();
    assert_eq!(converted.operations_info.len() + skipped, registry.len());
}

#[test]
fn client_is_named_after_the_title() {
    assert_eq!(run("Pet Store", true, pets()).client_struct_name(), "PetStoreClient");
    assert_eq!(run("", true, pets()).client_struct_name(), "ApiClient");
}

#[test]
fn new_runs_have_no_operations() {
    let only: HashSet<String> = ["list".to_owned()].into_iter().collect();
    let run = Orchestrator::new(
        document("Pets"),
        "pub",
        true,
        Some(&only),
        None,
        true,
        true,
        true,
        true,
        HashMap::new(),
        pets(),
    );
    assert!(run.operation_registry.is_empty());
    assert!(run.include_unused_schemas && run.odata_support && run.preserve_case_variants);
    assert!(run.case_insensitive_enums && run.no_helpers);
    assert_eq!(run.visibility, "pub");
    assert_eq!(run.spec.info.title, "Pets");
}

#[test]
fn configuration_follows_the_flags() {
    let customizations: HashMap<String, String> =
        [("date".to_owned(), "Date".to_owned())].into_iter().collect();
    let flags = |odata, preserve, insensitive, no_helpers| {
        let run = Orchestrator::new(
            document("Pets"),
            "pub",
            true,
            None,
            None,
            odata,
            preserve,
            insensitive,
            no_helpers,
            customizations.clone(),
            pets(),
        );
        run.codegen_config()
    };
    let off = flags(false, false, false, false);
    assert_eq!(off.enum_case, EnumCasePolicy::Deduplicate);
    assert_eq!(off.enum_helpers, EnumHelperPolicy::Generate);
    assert_eq!(off.enum_deserialize, EnumDeserializePolicy::CaseSensitive);
    assert_eq!(off.odata, ODataPolicy::Disabled);
    assert_eq!(off.customizations, customizations);
    assert_eq!(flags(true, false, false, false).odata, ODataPolicy::Enabled);
    assert_eq!(flags(false, true, false, false).enum_case, EnumCasePolicy::Preserve);
    assert_eq!(
        flags(false, false, true, false).enum_deserialize,
        EnumDeserializePolicy::CaseInsensitive
    );
    assert_eq!(flags(false, false, false, true).enum_helpers, EnumHelperPolicy::Disable);
}

#[test]
fn artifacts_of_a_run_with_operations() {
    let backend = Scripted { failing: vec!["Owner", "create"], ..pets() };
    let operations = registry(&backend);
    let mut run = run("Pets", false, backend);
    run.operation_registry = operations;
    let artifacts = run.collect_generation_artifacts();
    assert_eq!(
        names(&artifacts.rust_types),
        vec!["Kind", "Size", "Pet", "list", "list", "adopted", "adopted", "Cached"]
    );
    assert_eq!(artifacts.operations_info.len(), 2);
    assert_eq!(artifacts.usage_recorder, 103);
    let stats = artifacts.stats;
    assert_eq!(stats.types_generated, 8);
    assert_eq!(stats.structs_generated, 3);
    assert_eq!(stats.enums_generated, 3);
    assert_eq!(stats.enums_with_helpers_generated, 1);
    assert_eq!(stats.type_aliases_generated, 2);
    assert_eq!(stats.operations_converted, 2);
    assert_eq!(stats.webhooks_converted, 1);
    assert_eq!(stats.cycles_detected, 2);
    assert_eq!(stats.cycle_details, vec![vec!["A", "B"], vec!["C"]]);
    assert_eq!(stats.orphaned_schemas_count, 3);
    assert_eq!(
        texts(&stats.warnings),
        vec![
            "Failed to convert schema 'Scanned': bad reference",
            "Failed to convert schema 'Owner': no type",
            "[list] first",
            "[list] second",
            "Failed to convert operation 'POST /pets': no response",
            "[adopted] first",
            "[adopted] second",
        ]
    );
    assert_eq!(
        *run.backend.log.borrow(),
        vec![
            "load Pets".to_owned(),
            "dependencies of loaded".to_owned(),
            "cycles of graph".to_owned(),
            "reachable in graph from 3".to_owned(),
            "names of graph".to_owned(),
            "open graph with cache [\"Scanned\"] 7 Some({\"Kind\", \"Pet\"}) []".to_owned(),
            "cached after register Kind<Kind>, register Size<Size>, register Pet<Pet>, register \
             Owner<Owner>, convert Kind<Kind>, convert Size<Size>, convert Pet<Pet>, convert \
             Owner<Owner>, operation list, operation create, operation adopted"
                .to_owned(),
        ]
    );
}

#[test]
fn unused_schemas_are_not_orphaned_where_they_are_kept() {
    let run = run("Pets", true, pets());
    let artifacts = run.collect_generation_artifacts();
    assert_eq!(artifacts.stats.orphaned_schemas_count, 0);
    assert_eq!(artifacts.stats.operations_converted, 0);
    assert_eq!(artifacts.stats.webhooks_converted, 0);
    assert_eq!(
        run.backend.log.borrow()[3..5],
        ["names of graph".to_owned(), "open graph with cache [\"Scanned\"] 7 None []".to_owned()]
    );
}

#[test]
fn failed_name_scans_fall_back_to_no_names() {
    let run = run("Pets", true, Scripted { failing: vec!["names"], ..pets() });
    let artifacts = run.collect_generation_artifacts();
    assert_eq!(names(&artifacts.rust_types), vec!["Kind", "Size", "Pet", "Owner", "Cached"]);
    assert_eq!(
        texts(&artifacts.stats.warnings),
        vec!["Failed to convert schema 'Scanned': bad reference"]
    );
    assert!(run.backend.log.borrow().contains(&"open graph with cache [] 0 None []".to_owned()));
}

#[test]
fn types_are_written_to_a_file() {
    let run = run("Pets", false, pets());
    let (code, stats) = run.generate_with_header("pets.json").unwrap();
    assert_eq!(
        code,
        format!("pub file 6 of PetsClient lints from pets.json by {OAS3_GEN_VERSION}")
    );
    assert_eq!(stats.types_generated, 5);
    assert_eq!(stats.client_methods_generated, None);
    assert_eq!(stats.client_headers_generated, None);
    let log = run.backend.log.borrow();
    assert!(log.contains(&"client PetsClient for 2.5 at https://a.test https://b.test".to_owned()));
    assert!(log.contains(&"analyze 5 0 use 100".to_owned()));
}

#[test]
fn client_is_written_to_a_file() {
    let backend = pets();
    let operations = registry(&backend);
    let mut run = run("", false, backend);
    run.operation_registry = operations;
    let (code, stats) = run.generate_client_with_header("pets.json").unwrap();
    assert_eq!(
        code,
        format!(
            "pub ApiClient 4 beside 12 of ApiClient Some(\"lints\") from pets.json by \
             {OAS3_GEN_VERSION}"
        )
    );
    assert_eq!(stats.operations_converted, 3);
    assert_eq!(stats.client_methods_generated, Some(4));
    assert_eq!(stats.client_headers_generated, Some(4));
    let log = run.backend.log.borrow();
    assert!(log.contains(&"analyze 11 3 use 103".to_owned()));
}

const TYPES_FILE: &str = "pub file 6 of PetsClient lints";
const CLIENT_FILE: &str = "pub PetsClient 1 beside 6 of PetsClient Some(\"lints\")";
const TYPES_MODULE: &str = "pub types 6 of PetsClient None";
const CLIENT_MODULE: &str = "pub PetsClient 1 importing 6 of PetsClient None";
const ROOT: &str = "pub root of PetsClient";

#[test]
fn files_that_cannot_be_written_end_the_run() {
    let failing = Scripted { failing: vec![TYPES_FILE, CLIENT_FILE], ..pets() };
    let run = run("Pets", false, failing);
    let error = run.generate_with_header("x").unwrap_err();
    assert_eq!(error, format!("cannot write {TYPES_FILE}"));
    let error = run.generate_client_with_header("x").unwrap_err();
    assert_eq!(error, format!("cannot write {CLIENT_FILE}"));
}

#[test]
fn client_module_is_written_in_order() {
    let run = run("Pets", false, pets());
    let output = run.generate_client_mod("pets.json").unwrap();
    let end = format!("from pets.json by {OAS3_GEN_VERSION}");
    assert_eq!(output.types_code, format!("{TYPES_MODULE} {end}"));
    assert_eq!(output.client_code, format!("{CLIENT_MODULE} {end}"));
    assert_eq!(output.mod_code, format!("{ROOT} {end}"));
    assert_eq!(output.stats.client_methods_generated, Some(1));
    assert_eq!(output.stats.client_headers_generated, Some(1));
    let log = run.backend.log.borrow();
    assert_eq!(
        log[log.len() - 3..],
        [
            format!("write {TYPES_MODULE}"),
            format!("write {CLIENT_MODULE}"),
            format!("write {ROOT}"),
        ]
    );
}

#[test]
fn first_failing_part_of_a_module_ends_the_run() {
    for (failing, written) in [
        (vec![TYPES_MODULE, CLIENT_MODULE, ROOT], 1),
        (vec![CLIENT_MODULE, ROOT], 2),
        (vec![ROOT], 3),
    ] {
        let first = failing[0];
        let run = run("Pets", false, Scripted { failing, ..pets() });
        assert_eq!(run.generate_client_mod("x").unwrap_err(), format!("cannot write {first}"));
        let log = run.backend.log.borrow();
        assert_eq!(log.iter().filter(|line| line.starts_with("write")).count(), written);
    }
}

#[test]
fn statistics_do_not_depend_on_what_is_written() {
    let backend = Scripted { failing: vec!["Owner", "create"], ..pets() };
    let operations = registry(&backend);
    let mut run = run("Pets", false, backend);
    run.operation_registry = operations;
    let (_, types) = run.generate_with_header("a").unwrap();
    let (_, client) = run.generate_client_with_header("b").unwrap();
    let module = run.generate_client_mod("c").unwrap().stats;
    assert_eq!(format!("{client:?}"), format!("{module:?}"));
    assert_eq!(client.client_methods_generated, Some(3));
    assert_eq!(types.types_generated, module.types_generated);
    assert_eq!(types.cycle_details, module.cycle_details);
    assert_eq!(texts(&types.warnings), texts(&module.warnings));
}

#[test]
fn prepared_runs_are_written_as_generated_ones() {
    let run = run("Pets", false, pets());
    let prepared = run.prepare();
    assert_eq!(
        prepared.console,
        vec!["has BetaJsonValue? false", "Schema not found in graph: Lost"]
    );
    let (code, _) = run.write_types_file(prepared, "x").unwrap();
    assert_eq!(code, run.generate_with_header("x").unwrap().0);
    let (code, _) = run.write_client_file(run.prepare(), "x").unwrap();
    assert_eq!(code, run.generate_client_with_header("x").unwrap().0);
    let output = run.write_client_mod(run.prepare(), "x").unwrap();
    assert_eq!(output.client_code, run.generate_client_mod("x").unwrap().client_code);
}
