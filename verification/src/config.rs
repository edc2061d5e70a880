//! Configuration resolver: per-component bindings configuration with three
//! layered sources applied in a fixed order — the file-backed base, the
//! resolved library name, and facts inferred from the built interface. Every
//! field carries its provenance, so a value the user's file set explicitly is
//! never overwritten by a later inference step.

use vstd::prelude::*;

use crate::interface::{CiModel, ComponentInterface};

verus! {

/// One configuration field with its provenance: never set, set explicitly by
/// the configuration file, or inferred from discovered facts.
#[derive(Debug)]
pub enum ConfigValue {
    Unset,
    Explicit(String),
    Inferred(String),
}

/// Spec-level value of a [`ConfigValue`].
pub enum ConfigValueModel {
    Unset,
    Explicit(Seq<char>),
    Inferred(Seq<char>),
}

impl View for ConfigValue {
    type V = ConfigValueModel;

    open spec fn view(&self) -> ConfigValueModel {
        match self {
            ConfigValue::Unset => ConfigValueModel::Unset,
            ConfigValue::Explicit(s) => ConfigValueModel::Explicit(s@),
            ConfigValue::Inferred(s) => ConfigValueModel::Inferred(s@),
        }
    }
}

/// Per-component bindings configuration: the fields the inference steps may
/// fill.
#[derive(Debug)]
pub struct Config {
    /// The name of the compiled dynamic library to load.
    pub cdylib_name: ConfigValue,
    /// The target-language module name of the component.
    pub module_name: ConfigValue,
}

/// Spec-level value of a [`Config`].
pub struct ConfigModel {
    pub cdylib_name: ConfigValueModel,
    pub module_name: ConfigValueModel,
}

impl View for Config {
    type V = ConfigModel;

    open spec fn view(&self) -> ConfigModel {
        ConfigModel { cdylib_name: self.cdylib_name@, module_name: self.module_name@ }
    }
}

impl DeepView for Config {
    type V = ConfigModel;

    open spec fn deep_view(&self) -> ConfigModel {
        self@
    }
}

/// The configuration after adopting the resolved library name: only a field
/// the file did not set explicitly is eligible.
pub open spec fn spec_update_cdylib(c: ConfigModel, name: Seq<char>) -> ConfigModel {
    if c.cdylib_name is Explicit {
        c
    } else {
        ConfigModel { cdylib_name: ConfigValueModel::Inferred(name), ..c }
    }
}

/// The configuration after deriving naming defaults from the built interface:
/// the module name defaults to the component's namespace name unless the file
/// set it explicitly.
pub open spec fn spec_update_ci(c: ConfigModel, ci: CiModel) -> ConfigModel {
    if c.module_name is Explicit {
        c
    } else {
        ConfigModel { module_name: ConfigValueModel::Inferred(ci.ns_name), ..c }
    }
}

impl Config {
    /// A fully-defaulted configuration, used when no configuration file is
    /// present.
    pub fn new() -> (r: Config)
        ensures
            r@ == (ConfigModel {
                cdylib_name: ConfigValueModel::Unset,
                module_name: ConfigValueModel::Unset,
            }),
    {
        Config { cdylib_name: ConfigValue::Unset, module_name: ConfigValue::Unset }
    }

    /// An exact copy, field for field.
    pub fn duplicate(&self) -> (r: Config)
        ensures
            r@ == self@,
    {
        Config {
            cdylib_name: duplicate_value(&self.cdylib_name),
            module_name: duplicate_value(&self.module_name),
        }
    }

    /// Adopt the resolved library name for the library-name field, unless the
    /// configuration file set it explicitly.
    pub fn update_from_cdylib_name(&mut self, name: &str)
        ensures
            final(self)@ == spec_update_cdylib(old(self)@, name@),
    {
        match &self.cdylib_name {
            ConfigValue::Explicit(_) => {},
            _ => {
                self.cdylib_name = ConfigValue::Inferred(name.to_owned());
            },
        }
    }

    /// Derive naming defaults from facts of the built interface, unless the
    /// configuration file set them explicitly.
    pub fn update_from_ci(&mut self, ci: &ComponentInterface)
        ensures
            final(self)@ == spec_update_ci(old(self)@, ci@),
    {
        match &self.module_name {
            ConfigValue::Explicit(_) => {},
            _ => {
                self.module_name = ConfigValue::Inferred(ci.namespace_name.clone());
            },
        }
    }
}

/// An exact copy of one configuration field.
fn duplicate_value(v: &ConfigValue) -> (r: ConfigValue)
    ensures
        r@ == v@,
{
    match v {
        ConfigValue::Unset => ConfigValue::Unset,
        ConfigValue::Explicit(s) => ConfigValue::Explicit(s.clone()),
        ConfigValue::Inferred(s) => ConfigValue::Inferred(s.clone()),
    }
}

/// Law: configuration precedence — a field the configuration file set
/// explicitly equals the final resolved value, whatever library name or
/// interface facts the inference steps would otherwise suggest.
pub proof fn lemma_config_precedence(base: ConfigModel, name: Seq<char>, ci: CiModel)
    ensures
        base.cdylib_name is Explicit ==> spec_update_ci(
            spec_update_cdylib(base, name),
            ci,
        ).cdylib_name == base.cdylib_name,
        base.module_name is Explicit ==> spec_update_ci(
            spec_update_cdylib(base, name),
            ci,
        ).module_name == base.module_name,
{
}

} // verus!
