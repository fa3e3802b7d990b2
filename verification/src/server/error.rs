//! The errors of the service.

use crate::rune::archive::ArchiveFault;
use vstd::prelude::*;

verus! {

/// What can go wrong. A failure of reading, writing or encoding carries its
/// message.
#[derive(Clone, Debug, PartialEq)]
pub enum Error {
    /// Reading or writing failed.
    IO(String),
    /// A stored or transmitted value could not be encoded or decoded.
    Serialization(String),
    /// A rune archive could not be read or written.
    Archive(ArchiveFault),
    /// No cloud back end has this name. Carries the name as it was given.
    UnknownCloud(Vec<u8>),
    /// No model has this identifier.
    ModelLoad(u128),
    /// A live model has this name already.
    ModelAlreadyExists(String),
    /// The model with this identifier has been destroyed.
    ModelAlreadyDeleted(u128),
    /// A request was to be started while the one with this identifier was
    /// still active.
    ExistingActiveTask(u128),
    /// Waiting for the request with this identifier took too long.
    Timeout(u128),
    /// A cloud back end reported a failure.
    AdapterFailure(String),
    /// The driver or the interface stopped.
    UnexpectedShutdown(String),
    /// A completed request refers to a rune that the model does not hold.
    UnknownRune(String),
    /// Two requests of a model carry this identifier.
    RequestAlreadyExists(u128),
}

pub enum ErrorView {
    IO(Seq<char>),
    Serialization(Seq<char>),
    Archive(ArchiveFault),
    UnknownCloud(Seq<u8>),
    ModelLoad(u128),
    ModelAlreadyExists(Seq<char>),
    ModelAlreadyDeleted(u128),
    ExistingActiveTask(u128),
    Timeout(u128),
    AdapterFailure(Seq<char>),
    UnexpectedShutdown(Seq<char>),
    UnknownRune(Seq<char>),
    RequestAlreadyExists(u128),
}

impl View for Error {
    type V = ErrorView;

    open spec fn view(&self) -> ErrorView {
        match self {
            Error::IO(m) => ErrorView::IO(m@),
            Error::Serialization(m) => ErrorView::Serialization(m@),
            Error::Archive(fault) => ErrorView::Archive(*fault),
            Error::UnknownCloud(n) => ErrorView::UnknownCloud(n@),
            Error::ModelLoad(id) => ErrorView::ModelLoad(*id),
            Error::ModelAlreadyExists(n) => ErrorView::ModelAlreadyExists(n@),
            Error::ModelAlreadyDeleted(id) => ErrorView::ModelAlreadyDeleted(*id),
            Error::ExistingActiveTask(id) => ErrorView::ExistingActiveTask(*id),
            Error::Timeout(id) => ErrorView::Timeout(*id),
            Error::AdapterFailure(m) => ErrorView::AdapterFailure(m@),
            Error::UnexpectedShutdown(m) => ErrorView::UnexpectedShutdown(m@),
            Error::UnknownRune(n) => ErrorView::UnknownRune(n@),
            Error::RequestAlreadyExists(id) => ErrorView::RequestAlreadyExists(*id),
        }
    }
}

} // verus!
