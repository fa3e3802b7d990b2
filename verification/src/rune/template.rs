//! The container templates of a rune.

use crate::dict::Dict;
use vstd::prelude::*;

verus! {

/// A number that is either written out or left to a template expression.
#[derive(Clone, Debug, PartialEq)]
pub enum TemplateInteger {
    Integer(u32),
    Template(String),
}

pub enum TemplateIntegerView {
    Integer(u32),
    Template(Seq<char>),
}

impl View for TemplateInteger {
    type V = TemplateIntegerView;

    open spec fn view(&self) -> TemplateIntegerView {
        match self {
            TemplateInteger::Integer(n) => TemplateIntegerView::Integer(*n),
            TemplateInteger::Template(t) => TemplateIntegerView::Template(t@),
        }
    }
}

/// Where the image of a container comes from.
#[derive(Clone, Debug, PartialEq)]
pub enum Image {
    Source { source: String },
    Build { build: String },
}

pub enum ImageView {
    Source { source: Seq<char> },
    Build { build: Seq<char> },
}

impl View for Image {
    type V = ImageView;

    open spec fn view(&self) -> ImageView {
        match self {
            Image::Source { source } => ImageView::Source { source: source@ },
            Image::Build { build } => ImageView::Build { build: build@ },
        }
    }
}

/// A port that a container listens on.
#[derive(Clone, Debug, PartialEq)]
pub struct Port {
    pub name: String,
    pub container_port: TemplateInteger,
}

pub struct PortView {
    pub name: Seq<char>,
    pub container_port: TemplateIntegerView,
}

impl View for Port {
    type V = PortView;

    open spec fn view(&self) -> PortView {
        PortView { name: self.name@, container_port: self.container_port@ }
    }
}

/// One container template. `included` holds the text of the included document,
/// which is carried through as it is.
#[derive(Clone, Debug, PartialEq)]
pub struct Template {
    pub name: String,
    pub command: Vec<String>,
    pub args: Vec<String>,
    pub environment: Dict<String>,
    pub image: Image,
    pub ports: Vec<Port>,
    pub included: Option<String>,
}

pub struct TemplateView {
    pub name: Seq<char>,
    pub command: Seq<Seq<char>>,
    pub args: Seq<Seq<char>>,
    pub environment: Map<Seq<char>, Seq<char>>,
    pub image: ImageView,
    pub ports: Seq<PortView>,
    pub included: Option<Seq<char>>,
}

impl View for Template {
    type V = TemplateView;

    open spec fn view(&self) -> TemplateView {
        TemplateView {
            name: self.name@,
            command: self.command.deep_view(),
            args: self.args.deep_view(),
            environment: self.environment@,
            image: self.image@,
            ports: self.ports@.map_values(|p: Port| p@),
            included: self.included.deep_view(),
        }
    }
}

} // verus!
