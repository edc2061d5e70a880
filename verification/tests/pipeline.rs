use std::cell::RefCell;

use uniffi_bindgen::config::{ConfigValue, Config};
use uniffi_bindgen::metadata::{
    create_metadata_groups, group_metadata, DeclInfo, DeclKind, MetadataPayload, RawMetadataItem,
};
use uniffi_bindgen::pipeline::{
    find_sources, generate_external_bindings, BindingGenerator, LibraryIntrospector, Source,
    Workspace,
};
use uniffi_bindgen::{ComponentInterface, Error};

fn ns(crate_name: &str, name: &str) -> RawMetadataItem {
    RawMetadataItem {
        crate_name: crate_name.to_string(),
        payload: MetadataPayload::Namespace {
            name: name.to_string(),
        },
    }
}

fn decl(crate_name: &str, kind: DeclKind, name: &str, refs: &[&str]) -> RawMetadataItem {
    RawMetadataItem {
        crate_name: crate_name.to_string(),
        payload: MetadataPayload::Decl(DeclInfo {
            kind,
            name: name.to_string(),
            type_refs: refs.iter().map(|r| r.to_string()).collect(),
        }),
    }
}

fn two_component_items() -> Vec<RawMetadataItem> {
    vec![
        ns("core", "core"),
        decl("core", DeclKind::Record, "Point", &[]),
        decl("core", DeclKind::Function, "origin", &["Point"]),
        ns("net", "net"),
        decl("net", DeclKind::Function, "connect", &[]),
        decl("core", DeclKind::Enum, "Axis", &[]),
    ]
}

#[test]
fn grouping_partitions_by_component_in_discovery_order() {
    let items = two_component_items();
    let mut groups = create_metadata_groups(&items);
    group_metadata(&mut groups, items).unwrap();
    assert_eq!(2, groups.len());
    assert_eq!("core", groups[0].namespace.crate_name);
    assert_eq!("core", groups[0].namespace.name);
    assert_eq!("net", groups[1].namespace.crate_name);
    assert_eq!(3, groups[0].items.len());
    assert_eq!("Point", groups[0].items[0].name);
    assert_eq!("origin", groups[0].items[1].name);
    assert_eq!("Axis", groups[0].items[2].name);
    assert_eq!(1, groups[1].items.len());
    assert_eq!("connect", groups[1].items[0].name);
}

#[test]
fn grouping_rejects_unattributable_item() {
    let items = vec![ns("core", "core"), decl("other", DeclKind::Function, "f", &[])];
    let mut groups = create_metadata_groups(&items);
    let err = group_metadata(&mut groups, items).unwrap_err();
    assert!(matches!(err, Error::UnknownCrate { crate_name } if crate_name == "other"));
}

#[test]
fn grouping_rejects_disagreeing_namespace_declarations() {
    let items = vec![ns("core", "alpha"), ns("core", "beta")];
    let mut groups = create_metadata_groups(&items);
    let err = group_metadata(&mut groups, items).unwrap_err();
    assert!(matches!(err, Error::InconsistentNamespace { crate_name } if crate_name == "core"));
}

#[test]
fn interface_folds_one_group_atomically() {
    let items = two_component_items();
    let mut groups = create_metadata_groups(&items);
    group_metadata(&mut groups, items).unwrap();
    let mut ci = ComponentInterface::new("core");
    ci.add_metadata(groups.remove(0)).unwrap();
    assert_eq!("core", ci.crate_name);
    assert_eq!(3, ci.decls().len());
    assert_eq!("Point", ci.decls()[0].name);
}

#[test]
fn interface_rejects_name_collision() {
    let items = vec![
        ns("core", "core"),
        decl("core", DeclKind::Record, "Point", &[]),
        decl("core", DeclKind::Function, "Point", &[]),
    ];
    let err = find_sources(items, &Config::new(), None).unwrap_err();
    assert!(
        matches!(err, Error::NameCollision { crate_name, name } if crate_name == "core" && name == "Point")
    );
}

#[test]
fn interface_rejects_empty_name() {
    let items = vec![ns("core", "core"), decl("core", DeclKind::Function, "", &[])];
    let err = find_sources(items, &Config::new(), None).unwrap_err();
    assert!(matches!(err, Error::EmptyDeclName { crate_name } if crate_name == "core"));
}

#[test]
fn interface_rejects_unresolved_type_reference() {
    let items = vec![
        ns("core", "core"),
        decl("core", DeclKind::Function, "f", &["Missing"]),
    ];
    let err = find_sources(items, &Config::new(), None).unwrap_err();
    assert!(
        matches!(err, Error::UnresolvedTypeRef { crate_name, name } if crate_name == "core" && name == "Missing")
    );
}

#[test]
fn interface_rejects_reference_to_non_type() {
    // `origin` is a function, not a type: a reference to it does not resolve.
    let items = vec![
        ns("core", "core"),
        decl("core", DeclKind::Function, "origin", &[]),
        decl("core", DeclKind::Function, "f", &["origin"]),
    ];
    let err = find_sources(items, &Config::new(), None).unwrap_err();
    assert!(matches!(err, Error::UnresolvedTypeRef { name, .. } if name == "origin"));
}

#[test]
fn find_sources_yields_one_source_per_component_in_discovery_order() {
    let sources = find_sources(two_component_items(), &Config::new(), Some("uniffi")).unwrap();
    assert_eq!(2, sources.len());
    assert_eq!("core", sources[0].crate_name);
    assert_eq!("net", sources[1].crate_name);
    assert_eq!("core", sources[0].ci.crate_name);
    assert_eq!(3, sources[0].ci.decls().len());
    assert_eq!(1, sources[1].ci.decls().len());
    assert!(
        matches!(&sources[0].config.cdylib_name, ConfigValue::Inferred(n) if n == "uniffi")
    );
    assert!(
        matches!(&sources[1].config.module_name, ConfigValue::Inferred(n) if n == "net")
    );
}

#[test]
fn find_sources_keeps_explicit_configuration() {
    let base = Config {
        cdylib_name: ConfigValue::Explicit("user_chosen".to_string()),
        module_name: ConfigValue::Explicit("user_module".to_string()),
    };
    let sources = find_sources(two_component_items(), &base, Some("uniffi")).unwrap();
    for source in &sources {
        assert!(
            matches!(&source.config.cdylib_name, ConfigValue::Explicit(n) if n == "user_chosen")
        );
        assert!(
            matches!(&source.config.module_name, ConfigValue::Explicit(n) if n == "user_module")
        );
    }
}

#[test]
fn find_sources_is_deterministic() {
    let first = find_sources(two_component_items(), &Config::new(), Some("uniffi")).unwrap();
    let second = find_sources(two_component_items(), &Config::new(), Some("uniffi")).unwrap();
    assert_eq!(first.len(), second.len());
    for (a, b) in first.iter().zip(second.iter()) {
        assert_eq!(a.crate_name, b.crate_name);
        assert_eq!(a.ci.crate_name, b.ci.crate_name);
        assert_eq!(a.ci.namespace_name, b.ci.namespace_name);
        assert_eq!(a.ci.decls().len(), b.ci.decls().len());
        for (da, db) in a.ci.decls().iter().zip(b.ci.decls().iter()) {
            assert_eq!(da.name, db.name);
            assert_eq!(da.kind, db.kind);
            assert_eq!(da.type_refs, db.type_refs);
        }
        assert!(config_values_equal(&a.config.cdylib_name, &b.config.cdylib_name));
        assert!(config_values_equal(&a.config.module_name, &b.config.module_name));
    }
}

fn config_values_equal(a: &ConfigValue, b: &ConfigValue) -> bool {
    match (a, b) {
        (ConfigValue::Unset, ConfigValue::Unset) => true,
        (ConfigValue::Explicit(x), ConfigValue::Explicit(y)) => x == y,
        (ConfigValue::Inferred(x), ConfigValue::Inferred(y)) => x == y,
        _ => false,
    }
}

struct RecordingGenerator {
    checks: RefCell<usize>,
    writes: RefCell<Vec<String>>,
}

impl RecordingGenerator {
    fn new() -> RecordingGenerator {
        RecordingGenerator {
            checks: RefCell::new(0),
            writes: RefCell::new(Vec::new()),
        }
    }
}

impl BindingGenerator for RecordingGenerator {
    fn check_library_path(&self, _library_path: &str, cdylib_name: Option<&str>) -> Result<(), Error> {
        *self.checks.borrow_mut() += 1;
        if cdylib_name.is_none() {
            return Err(Error::UnsupportedLibrary);
        }
        Ok(())
    }

    fn write_bindings(
        &self,
        ci: &ComponentInterface,
        _config: &Config,
        _out_dir: &str,
    ) -> Result<(), Error> {
        self.writes.borrow_mut().push(ci.crate_name.clone());
        Ok(())
    }
}

struct FixedIntrospector {
    items: RefCell<Option<Result<Vec<RawMetadataItem>, Error>>>,
}

impl LibraryIntrospector for FixedIntrospector {
    fn extract_from_library(&self, _library_path: &str) -> Result<Vec<RawMetadataItem>, Error> {
        self.items.borrow_mut().take().expect("one extraction per run")
    }
}

struct RecordingWorkspace {
    created_dirs: RefCell<Vec<String>>,
}

impl Workspace for RecordingWorkspace {
    fn load_initial_config(&self, _crate_root: &str) -> Result<Config, Error> {
        Ok(Config::new())
    }

    fn create_dir_all(&self, path: &str) -> Result<(), Error> {
        self.created_dirs.borrow_mut().push(path.to_string());
        Ok(())
    }
}

fn run_pipeline(
    extraction: Result<Vec<RawMetadataItem>, Error>,
    library_path: &str,
) -> (Result<Vec<Source>, Error>, RecordingGenerator, RecordingWorkspace) {
    let generator = RecordingGenerator::new();
    let introspector = FixedIntrospector {
        items: RefCell::new(Some(extraction)),
    };
    let workspace = RecordingWorkspace {
        created_dirs: RefCell::new(Vec::new()),
    };
    let result = generate_external_bindings(
        &generator,
        &introspector,
        &workspace,
        library_path,
        "/crate/root",
        "/out/dir",
    );
    (result, generator, workspace)
}

#[test]
fn pipeline_writes_bindings_for_every_component() {
    let (result, generator, workspace) =
        run_pipeline(Ok(two_component_items()), "/path/to/libuniffi.so");
    let sources = result.unwrap();
    assert_eq!(2, sources.len());
    assert_eq!(1, *generator.checks.borrow());
    assert_eq!(vec!["core".to_string(), "net".to_string()], *generator.writes.borrow());
    assert_eq!(vec!["/out/dir".to_string()], *workspace.created_dirs.borrow());
}

#[test]
fn pipeline_failing_introspection_creates_nothing() {
    let (result, generator, workspace) = run_pipeline(Err(Error::Io), "/path/to/libuniffi.so");
    assert!(matches!(result, Err(Error::Io)));
    assert!(workspace.created_dirs.borrow().is_empty());
    assert!(generator.writes.borrow().is_empty());
}

#[test]
fn pipeline_failing_component_writes_nothing_at_all() {
    // The second component fails interface construction: nothing is written
    // for the first component either, and no output directory appears.
    let items = vec![
        ns("core", "core"),
        decl("core", DeclKind::Function, "f", &[]),
        ns("net", "net"),
        decl("net", DeclKind::Function, "g", &[]),
        decl("net", DeclKind::Record, "g", &[]),
    ];
    let (result, generator, workspace) = run_pipeline(Ok(items), "/path/to/libuniffi.so");
    assert!(matches!(result, Err(Error::NameCollision { .. })));
    assert!(workspace.created_dirs.borrow().is_empty());
    assert!(generator.writes.borrow().is_empty());
}

#[test]
fn pipeline_rejects_unsupported_library_before_scanning() {
    // No recognized extension: the generator's usability check fails and the
    // artifact is never scanned (the introspector still holds its records).
    let generator = RecordingGenerator::new();
    let introspector = FixedIntrospector {
        items: RefCell::new(Some(Ok(two_component_items()))),
    };
    let workspace = RecordingWorkspace {
        created_dirs: RefCell::new(Vec::new()),
    };
    let result = generate_external_bindings(
        &generator,
        &introspector,
        &workspace,
        "/path/to/uniffi.txt",
        "/crate/root",
        "/out/dir",
    );
    assert!(matches!(result, Err(Error::UnsupportedLibrary)));
    assert!(introspector.items.borrow().is_some());
    assert!(workspace.created_dirs.borrow().is_empty());
    assert!(generator.writes.borrow().is_empty());
}

#[test]
fn config_updates_fill_only_non_explicit_fields() {
    let mut config = Config::new();
    config.update_from_cdylib_name("uniffi");
    assert!(matches!(&config.cdylib_name, ConfigValue::Inferred(n) if n == "uniffi"));
    let mut explicit = Config {
        cdylib_name: ConfigValue::Explicit("mine".to_string()),
        module_name: ConfigValue::Unset,
    };
    explicit.update_from_cdylib_name("uniffi");
    assert!(matches!(&explicit.cdylib_name, ConfigValue::Explicit(n) if n == "mine"));
    let ci = ComponentInterface::new("core");
    explicit.update_from_ci(&ci);
    assert!(matches!(&explicit.module_name, ConfigValue::Inferred(n) if n == "core"));
}

struct FailingWorkspace;

impl Workspace for FailingWorkspace {
    fn load_initial_config(&self, _crate_root: &str) -> Result<Config, Error> {
        Err(Error::ConfigParse)
    }

    fn create_dir_all(&self, _path: &str) -> Result<(), Error> {
        Ok(())
    }
}

#[test]
fn pipeline_propagates_config_parse_failure() {
    let generator = RecordingGenerator::new();
    let introspector = FixedIntrospector {
        items: RefCell::new(Some(Ok(two_component_items()))),
    };
    let result = generate_external_bindings(
        &generator,
        &introspector,
        &FailingWorkspace,
        "/path/to/libuniffi.so",
        "/crate/root",
        "/out/dir",
    );
    assert!(matches!(result, Err(Error::ConfigParse)));
    assert!(generator.writes.borrow().is_empty());
}

struct FailingGenerator;

impl BindingGenerator for FailingGenerator {
    fn check_library_path(&self, _library_path: &str, _cdylib_name: Option<&str>) -> Result<(), Error> {
        Ok(())
    }

    fn write_bindings(
        &self,
        _ci: &ComponentInterface,
        _config: &Config,
        _out_dir: &str,
    ) -> Result<(), Error> {
        Err(Error::Generation)
    }
}

#[test]
fn pipeline_propagates_generation_failure() {
    let introspector = FixedIntrospector {
        items: RefCell::new(Some(Ok(two_component_items()))),
    };
    let workspace = RecordingWorkspace {
        created_dirs: RefCell::new(Vec::new()),
    };
    let result = generate_external_bindings(
        &FailingGenerator,
        &introspector,
        &workspace,
        "/path/to/libuniffi.so",
        "/crate/root",
        "/out/dir",
    );
    assert!(matches!(result, Err(Error::Generation)));
}
