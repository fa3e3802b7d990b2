//! What a rune declares about itself.

use crate::dict::Dict;
use crate::text::{bool_chars, bool_text, decimal, u32_text};
use vstd::prelude::*;

verus! {

/// Where the value of a secret comes from.
#[derive(Clone, Debug, PartialEq)]
pub enum SecretSource {
    Generate,
    Env { file: String },
}

pub enum SecretSourceView {
    Generate,
    Env { file: Seq<char> },
}

impl View for SecretSource {
    type V = SecretSourceView;

    open spec fn view(&self) -> SecretSourceView {
        match self {
            SecretSource::Generate => SecretSourceView::Generate,
            SecretSource::Env { file } => SecretSourceView::Env { file: file@ },
        }
    }
}

/// One configuration item of a rune.
#[derive(Clone, Debug, PartialEq)]
pub enum ConfigItem {
    Boolean { description: String, default: bool, transformer: Option<String> },
    Integer { description: String, default: u32, transformer: Option<String> },
    String { description: String, default: String, transformer: Option<String> },
    Secret { description: String, source: Option<SecretSource>, transformer: Option<String> },
    Archive { description: String, transformer: Option<String> },
}

pub enum ConfigItemView {
    Boolean { description: Seq<char>, default: bool, transformer: Option<Seq<char>> },
    Integer { description: Seq<char>, default: u32, transformer: Option<Seq<char>> },
    String { description: Seq<char>, default: Seq<char>, transformer: Option<Seq<char>> },
    Secret {
        description: Seq<char>,
        source: Option<SecretSourceView>,
        transformer: Option<Seq<char>>,
    },
    Archive { description: Seq<char>, transformer: Option<Seq<char>> },
}

impl ConfigItemView {
    /// The value that the item has before anyone configures it: the text of the
    /// declared default for booleans, integers and strings, nothing for secrets
    /// and archives.
    pub open spec fn initial_value(self) -> Option<Seq<char>> {
        match self {
            ConfigItemView::Boolean { default, .. } => Some(bool_chars(default)),
            ConfigItemView::Integer { default, .. } => Some(decimal(default as nat)),
            ConfigItemView::String { default, .. } => Some(default),
            ConfigItemView::Secret { .. } => None,
            ConfigItemView::Archive { .. } => None,
        }
    }
}

impl View for ConfigItem {
    type V = ConfigItemView;

    open spec fn view(&self) -> ConfigItemView {
        match self {
            ConfigItem::Boolean { description, default, transformer } => ConfigItemView::Boolean {
                description: description@,
                default: *default,
                transformer: transformer.deep_view(),
            },
            ConfigItem::Integer { description, default, transformer } => ConfigItemView::Integer {
                description: description@,
                default: *default,
                transformer: transformer.deep_view(),
            },
            ConfigItem::String { description, default, transformer } => ConfigItemView::String {
                description: description@,
                default: default@,
                transformer: transformer.deep_view(),
            },
            ConfigItem::Secret { description, source, transformer } => ConfigItemView::Secret {
                description: description@,
                source: match source {
                    Some(s) => Some(s@),
                    None => None,
                },
                transformer: transformer.deep_view(),
            },
            ConfigItem::Archive { description, transformer } => ConfigItemView::Archive {
                description: description@,
                transformer: transformer.deep_view(),
            },
        }
    }
}

impl DeepView for ConfigItem {
    type V = ConfigItemView;

    open spec fn deep_view(&self) -> ConfigItemView {
        self@
    }
}

impl ConfigItem {
    /// The value that the item has before anyone configures it.
    pub fn initial_value(&self) -> (r: Option<String>)
        ensures
            r.deep_view() == self@.initial_value(),
    {
        match self {
            ConfigItem::Boolean { default, .. } => Some(bool_text(*default)),
            ConfigItem::Integer { default, .. } => Some(u32_text(*default)),
            ConfigItem::String { default, .. } => Some(default.clone()),
            ConfigItem::Secret { .. } => None,
            ConfigItem::Archive { .. } => None,
        }
    }
}

/// An interface that a rune offers.
#[derive(Clone, Debug, PartialEq)]
pub struct Provide {
    pub name: String,
    pub interface: String,
}

pub struct ProvideView {
    pub name: Seq<char>,
    pub interface: Seq<char>,
}

impl View for Provide {
    type V = ProvideView;

    open spec fn view(&self) -> ProvideView {
        ProvideView { name: self.name@, interface: self.interface@ }
    }
}

/// An interface that a rune needs, with the number of providers it accepts.
#[derive(Clone, Debug, PartialEq)]
pub struct Require {
    pub name: String,
    pub interface: String,
    pub min: Option<u32>,
    pub max: Option<u32>,
}

pub struct RequireView {
    pub name: Seq<char>,
    pub interface: Seq<char>,
    pub min: Option<u32>,
    pub max: Option<u32>,
}

impl View for Require {
    type V = RequireView;

    open spec fn view(&self) -> RequireView {
        RequireView { name: self.name@, interface: self.interface@, min: self.min, max: self.max }
    }
}

/// The metadata of a rune.
#[derive(Clone, Debug, PartialEq)]
pub struct Metadata {
    pub name: String,
    pub description: String,
    pub repo: String,
    pub maintainers: Vec<String>,
    pub tags: Vec<String>,
    pub series: Vec<String>,
    pub provides: Vec<Provide>,
    pub requires: Vec<Require>,
    pub dependencies: Dict<String>,
    pub react: Option<String>,
    pub config: Dict<ConfigItem>,
}

pub struct MetadataView {
    pub name: Seq<char>,
    pub description: Seq<char>,
    pub repo: Seq<char>,
    pub maintainers: Seq<Seq<char>>,
    pub tags: Seq<Seq<char>>,
    pub series: Seq<Seq<char>>,
    pub provides: Seq<ProvideView>,
    pub requires: Seq<RequireView>,
    pub dependencies: Map<Seq<char>, Seq<char>>,
    pub react: Option<Seq<char>>,
    pub config: Map<Seq<char>, ConfigItemView>,
}

impl View for Metadata {
    type V = MetadataView;

    open spec fn view(&self) -> MetadataView {
        MetadataView {
            name: self.name@,
            description: self.description@,
            repo: self.repo@,
            maintainers: self.maintainers.deep_view(),
            tags: self.tags.deep_view(),
            series: self.series.deep_view(),
            provides: self.provides@.map_values(|p: Provide| p@),
            requires: self.requires@.map_values(|r: Require| r@),
            dependencies: self.dependencies@,
            react: self.react.deep_view(),
            config: self.config@,
        }
    }
}

} // verus!
