//! Pipeline orchestration: sequence discovery, grouping, interface building
//! and configuration resolution across all components of one artifact, then
//! drive a binding generator over each assembled source. Components are
//! processed in the order their namespaces were first discovered; the first
//! fault aborts the whole run — no partial result set is ever returned.

use vstd::prelude::*;

use crate::cdylib_name::calc_cdylib_name;
use crate::config::{spec_update_cdylib, spec_update_ci, Config, ConfigModel};
use crate::error::{Error, ErrorModel};
use crate::interface::{first_interface_err, CiModel, ComponentInterface};
use crate::metadata::{
    create_metadata_groups, decls_for, first_group_err, group_metadata, ns_crates, ns_name_for,
    ItemModel, MetadataGroup, RawMetadataItem,
};

verus! {

/// A single source that bindings are generated for: one component's name, its
/// validated interface, and its resolved configuration.
#[derive(Debug)]
pub struct Source {
    pub crate_name: String,
    pub ci: ComponentInterface,
    pub config: Config,
}

/// Spec-level value of a [`Source`].
pub struct SourceModel {
    pub crate_name: Seq<char>,
    pub ci: CiModel,
    pub config: ConfigModel,
}

impl View for Source {
    type V = SourceModel;

    open spec fn view(&self) -> SourceModel {
        SourceModel { crate_name: self.crate_name@, ci: self.ci@, config: self.config@ }
    }
}

impl DeepView for Source {
    type V = SourceModel;

    open spec fn deep_view(&self) -> SourceModel {
        self@
    }
}

/// The configuration resolved for one component: the base layered first with
/// the resolved library name (when one was resolved), then with facts of the
/// built interface.
pub open spec fn resolved_config(
    base: ConfigModel,
    cdylib: Option<Seq<char>>,
    ci: CiModel,
) -> ConfigModel {
    let named = match cdylib {
        Some(n) => spec_update_cdylib(base, n),
        None => base,
    };
    spec_update_ci(named, ci)
}

/// The interface model component `c` folds to.
pub open spec fn ci_model_for(items: Seq<ItemModel>, c: Seq<char>) -> CiModel {
    CiModel { crate_name: c, ns_name: ns_name_for(items, c), decls: decls_for(items, c) }
}

/// The source assembled for component `c`.
pub open spec fn source_model_for(
    items: Seq<ItemModel>,
    base: ConfigModel,
    cdylib: Option<Seq<char>>,
    c: Seq<char>,
) -> SourceModel {
    let ci = ci_model_for(items, c);
    SourceModel { crate_name: c, ci, config: resolved_config(base, cdylib, ci) }
}

/// The first interface-construction fault over the components at or after
/// discovery position `j`.
pub open spec fn first_build_err_from(items: Seq<ItemModel>, j: int) -> Option<ErrorModel>
    decreases ns_crates(items).len() - j,
{
    let crates = ns_crates(items);
    if j < 0 || j >= crates.len() {
        None
    } else {
        match first_interface_err(crates[j], decls_for(items, crates[j])) {
            Some(e) => Some(e),
            None => first_build_err_from(items, j + 1),
        }
    }
}

/// What one artifact scan assembles: on success exactly one source per
/// discovered component, in discovery order; otherwise the first fault, in
/// discovery order — grouping faults before interface faults.
pub open spec fn spec_find_sources(
    items: Seq<ItemModel>,
    base: ConfigModel,
    cdylib: Option<Seq<char>>,
) -> Result<Seq<SourceModel>, ErrorModel> {
    match first_group_err(items) {
        Some(e) => Err(e),
        None => match first_build_err_from(items, 0) {
            Some(e) => Err(e),
            None => Ok(
                Seq::new(
                    ns_crates(items).len(),
                    |j: int| source_model_for(items, base, cdylib, ns_crates(items)[j]),
                ),
            ),
        },
    }
}

/// A fault-free prefix of components moves the first build fault past it.
proof fn lemma_build_err_skip(items: Seq<ItemModel>, j: int)
    requires
        0 <= j <= ns_crates(items).len(),
        forall|k: int|
            0 <= k < j ==> first_interface_err(
                ns_crates(items)[k],
                decls_for(items, #[trigger] ns_crates(items)[k]),
            ) is None,
    ensures
        first_build_err_from(items, 0) == first_build_err_from(items, j),
    decreases j,
{
    if j > 0 {
        lemma_build_err_skip(items, j - 1);
    }
}

/// Assemble one source per discovered component: group the records, fold each
/// group into a validated interface, and resolve its configuration from the
/// loaded base, the resolved library name and the interface facts. The first
/// fault aborts the whole run; on success the result holds exactly one source
/// per distinct component, in discovery order.
pub fn find_sources(
    items: Vec<RawMetadataItem>,
    base_config: &Config,
    cdylib_name: Option<&str>,
) -> (r: Result<Vec<Source>, Error>)
    ensures
        match r {
            Ok(sources) => spec_find_sources(
                items.deep_view(),
                base_config@,
                cdylib_name.deep_view(),
            ) == Ok::<Seq<SourceModel>, ErrorModel>(sources.deep_view()),
            Err(e) => spec_find_sources(items.deep_view(), base_config@, cdylib_name.deep_view())
                == Err::<Seq<SourceModel>, ErrorModel>(e@),
        },
{
    let ghost its = items.deep_view();
    let ghost base = base_config@;
    let ghost cdy = cdylib_name.deep_view();
    let ghost crates = ns_crates(its);
    let mut groups = create_metadata_groups(&items);
    match group_metadata(&mut groups, items) {
        Ok(()) => {},
        Err(e) => {
            return Err(e);
        },
    }
    let mut sources: Vec<Source> = Vec::new();
    let n = groups.len();
    let mut k: usize = 0;
    while k < n
        invariant
            k <= n,
            n == crates.len(),
            its == items.deep_view(),
            base == base_config@,
            cdy == cdylib_name.deep_view(),
            crates == ns_crates(its),
            first_group_err(its) is None,
            groups.deep_view().len() == n - k,
            forall|j: int|
                0 <= j < n - k ==> {
                    &&& (#[trigger] groups.deep_view()[j]).crate_name == crates[k + j]
                    &&& groups.deep_view()[j].ns_name == ns_name_for(its, crates[k + j])
                    &&& groups.deep_view()[j].items == decls_for(its, crates[k + j])
                },
            sources.deep_view().len() == k,
            forall|j: int|
                0 <= j < k ==> (#[trigger] sources.deep_view()[j]) == source_model_for(
                    its,
                    base,
                    cdy,
                    crates[j],
                ),
            forall|j: int|
                0 <= j < k ==> first_interface_err(
                    crates[j],
                    decls_for(its, #[trigger] crates[j]),
                ) is None,
        decreases n - k,
    {
        let ghost gprev = groups.deep_view();
        let ghost gview = groups@;
        let group = groups.remove(0);
        proof {
            assert(gprev[0] == gview[0].deep_view());
            assert(group@ == gprev[0]);
            assert forall|j: int| 0 <= j < groups@.len() implies (#[trigger] groups.deep_view()[j])
                == gprev[j + 1] by {
                assert(groups.deep_view()[j] == groups@[j].deep_view());
                assert(groups@[j] == gview[j + 1]);
                assert(gprev[j + 1] == gview[j + 1].deep_view());
            }
        }
        let crate_name = group.namespace.crate_name.clone();
        let mut ci = ComponentInterface::new(crate_name.as_str());
        match ci.add_metadata(group) {
            Ok(()) => {},
            Err(e) => {
                proof {
                    lemma_build_err_skip(its, k as int);
                    assert(first_interface_err(crates[k as int], decls_for(its, crates[k as int]))
                        == Some(e@));
                    assert(first_build_err_from(its, k as int) == Some(e@));
                }
                return Err(e);
            },
        }
        let mut config = base_config.duplicate();
        match cdylib_name {
            Some(name) => {
                config.update_from_cdylib_name(name);
            },
            None => {},
        }
        config.update_from_ci(&ci);
        let ghost sprev = sources.deep_view();
        let ghost sview = sources@;
        let source = Source { crate_name, ci, config };
        proof {
            assert(source@ == source_model_for(its, base, cdy, crates[k as int]));
        }
        sources.push(source);
        proof {
            assert forall|j: int| 0 <= j < sources@.len() implies (#[trigger] sources.deep_view()[
                j
            ]) == sprev.push(source@)[j] by {
                assert(sources.deep_view()[j] == sources@[j].deep_view());
                if j < sview.len() {
                    assert(sources@[j] == sview[j]);
                    assert(sprev[j] == sview[j].deep_view());
                }
            }
        }
        k += 1;
    }
    proof {
        lemma_build_err_skip(its, n as int);
        let expected = Seq::new(
            ns_crates(its).len(),
            |j: int| source_model_for(its, base, cdy, ns_crates(its)[j]),
        );
        assert(sources.deep_view() =~= expected);
    }
    Ok(sources)
}

/// Crate names are pairwise distinct across the sources.
pub open spec fn distinct_crate_names(ss: Seq<SourceModel>) -> bool {
    forall|a: int, b: int|
        0 <= a < b < ss.len() ==> (#[trigger] ss[a].crate_name) != (#[trigger] ss[b].crate_name)
}

/// Law: an artifact whose scan discovers N distinct components yields exactly
/// N sources — one per distinct namespace, under its crate name, in discovery
/// order, with no duplication and no loss.
pub proof fn lemma_sources_complete(
    items: Seq<ItemModel>,
    base: ConfigModel,
    cdylib: Option<Seq<char>>,
)
    ensures
        match spec_find_sources(items, base, cdylib) {
            Ok(ss) => {
                &&& ss.len() == ns_crates(items).len()
                &&& forall|j: int|
                    0 <= j < ss.len() ==> (#[trigger] ss[j].crate_name) == ns_crates(items)[j]
                &&& distinct_crate_names(ss)
            },
            Err(_) => true,
        },
{
    crate::metadata::lemma_ns_crates_distinct(items);
}

/// Law: assembly is a function of the scanned records, the base configuration
/// and the resolved library name alone — two runs over the same inputs yield
/// identical results.
pub proof fn lemma_find_sources_idempotent(
    items: Seq<ItemModel>,
    base: ConfigModel,
    cdylib: Option<Seq<char>>,
    r1: Result<Seq<SourceModel>, ErrorModel>,
    r2: Result<Seq<SourceModel>, ErrorModel>,
)
    requires
        r1 == spec_find_sources(items, base, cdylib),
        r2 == spec_find_sources(items, base, cdylib),
    ensures
        r1 == r2,
{
}

/// Law: configuration precedence holds through the whole assembly — every
/// source's configuration field that the base set explicitly keeps the base's
/// value.
pub proof fn lemma_sources_keep_explicit_config(
    items: Seq<ItemModel>,
    base: ConfigModel,
    cdylib: Option<Seq<char>>,
)
    ensures
        match spec_find_sources(items, base, cdylib) {
            Ok(ss) => forall|j: int|
                0 <= j < ss.len() ==> {
                    &&& base.cdylib_name is Explicit ==> (#[trigger] ss[j].config).cdylib_name
                        == base.cdylib_name
                    &&& base.module_name is Explicit ==> ss[j].config.module_name
                        == base.module_name
                },
            Err(_) => true,
        },
{
}

/// A binding generator: the capability set the orchestrator drives, one
/// concrete implementation per target-language family. Nothing is assumed of
/// an implementation's outside effects; the orchestrator handles every
/// outcome.
pub trait BindingGenerator {
    /// Check that the library is usable for this generator; called before any
    /// scanning is attempted.
    fn check_library_path(&self, library_path: &str, cdylib_name: Option<&str>) -> Result<
        (),
        Error,
    >;

    /// Emit bindings for one assembled source into `out_dir`.
    fn write_bindings(&self, ci: &ComponentInterface, config: &Config, out_dir: &str) -> Result<
        (),
        Error,
    >;
}

/// The library introspector: scans the compiled artifact and returns the raw
/// metadata records embedded in its exported symbols, in artifact order.
pub trait LibraryIntrospector {
    /// Scan the artifact at `library_path`.
    fn extract_from_library(&self, library_path: &str) -> Result<Vec<RawMetadataItem>, Error>;
}

/// The host-filesystem operations the orchestrator needs: loading the
/// file-backed base configuration and creating the output directory.
pub trait Workspace {
    /// Read the base configuration under `crate_root`; a missing file yields
    /// the fully-defaulted configuration, a malformed one a parse fault.
    fn load_initial_config(&self, crate_root: &str) -> Result<Config, Error>;

    /// Create `path` and its parents; existing contents are kept.
    fn create_dir_all(&self, path: &str) -> Result<(), Error>;
}

/// Generate foreign bindings for every component of the artifact: resolve the
/// library name, check usability, scan the artifact, assemble the sources,
/// create the output directory, and write bindings for every source. The
/// first fault aborts the run: when introspection or assembly fails, the
/// output directory is not created and nothing is written. Returns the
/// sources used, one per discovered component, in discovery order.
pub fn generate_external_bindings<G: BindingGenerator, I: LibraryIntrospector, W: Workspace>(
    binding_generator: &G,
    introspector: &I,
    workspace: &W,
    library_path: &str,
    crate_root: &str,
    out_dir: &str,
) -> (r: Result<Vec<Source>, Error>)
    ensures
        match r {
            Ok(sources) => distinct_crate_names(sources.deep_view()),
            Err(_) => true,
        },
{
    let cdylib_name = calc_cdylib_name(library_path);
    match binding_generator.check_library_path(library_path, cdylib_name) {
        Ok(()) => {},
        Err(e) => {
            return Err(e);
        },
    }
    let items = match introspector.extract_from_library(library_path) {
        Ok(items) => items,
        Err(e) => {
            return Err(e);
        },
    };
    let base_config = match workspace.load_initial_config(crate_root) {
        Ok(config) => config,
        Err(e) => {
            return Err(e);
        },
    };
    let ghost its = items.deep_view();
    let ghost base = base_config@;
    let ghost cdy = cdylib_name.deep_view();
    let sources = match find_sources(items, &base_config, cdylib_name) {
        Ok(sources) => sources,
        Err(e) => {
            return Err(e);
        },
    };
    proof {
        lemma_sources_complete(its, base, cdy);
    }
    match workspace.create_dir_all(out_dir) {
        Ok(()) => {},
        Err(e) => {
            return Err(e);
        },
    }
    let n = sources.len();
    let mut k: usize = 0;
    while k < n
        invariant
            k <= n,
            n == sources.len(),
            distinct_crate_names(sources.deep_view()),
        decreases n - k,
    {
        match binding_generator.write_bindings(&sources[k].ci, &sources[k].config, out_dir) {
            Ok(()) => {},
            Err(e) => {
                return Err(e);
            },
        }
        k += 1;
    }
    Ok(sources)
}

} // verus!
