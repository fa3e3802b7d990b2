//! The Kubernetes back end: a model is a namespace.

use crate::server::error::{Error, ErrorView};
use crate::text::same_text;
use crate::traits::Cloud;
use vstd::prelude::*;

verus! {

/// What looking for a namespace came to.
#[derive(Clone, Debug, PartialEq)]
pub enum NamespaceLookup {
    /// The namespace exists.
    Found,
    /// The cluster answered with an error that has this reason.
    Refused { reason: String },
    /// The cluster could not be asked.
    Failed { message: String },
}

/// The reason with which a cluster says that it does not have a resource.
pub open spec fn not_found() -> Seq<char> {
    seq!['N', 'o', 't', 'F', 'o', 'u', 'n', 'd']
}

/// The message of the error for a namespace that exists already.
pub open spec fn namespace_exists() -> Seq<char> {
    seq![
        'N',
        'a',
        'm',
        'e',
        's',
        'p',
        'a',
        'c',
        'e',
        ' ',
        'a',
        'l',
        'r',
        'e',
        'a',
        'd',
        'y',
        ' ',
        'e',
        'x',
        'i',
        's',
        't',
        's',
        '!',
    ]
}

/// Whether a model can be created, given what looking for the namespace of
/// its name came to: it can where the cluster says that it has no such
/// namespace. A namespace that exists stands for a model that exists; any
/// other answer is a failure of the back end.
pub fn create_model(lookup: NamespaceLookup) -> (r: Result<(), Error>)
    ensures
        match lookup {
            NamespaceLookup::Found => r matches Err(e) && e@ == ErrorView::ModelAlreadyExists(namespace_exists()),
            NamespaceLookup::Refused { reason } => if reason@ == not_found() {
                r is Ok
            } else {
                r matches Err(e) && e@ == ErrorView::AdapterFailure(reason@)
            },
            NamespaceLookup::Failed { message } => r matches Err(e) && e@ == ErrorView::AdapterFailure(message@),
        },
{
    proof {
        reveal_strlit("NotFound");
        reveal_strlit("Namespace already exists!");
        assert("NotFound"@ =~= not_found());
        assert("Namespace already exists!"@ =~= namespace_exists());
    }
    match lookup {
        NamespaceLookup::Found => Err(Error::ModelAlreadyExists("Namespace already exists!".to_owned())),
        NamespaceLookup::Refused { reason } => {
            if same_text(reason.as_str(), "NotFound") {
                Ok(())
            } else {
                Err(Error::AdapterFailure(reason))
            }
        },
        NamespaceLookup::Failed { message } => Err(Error::AdapterFailure(message)),
    }
}

/// The Kubernetes back end. It needs no preparation.
#[derive(Clone, Copy, Debug, PartialEq, Eq, Structural)]
pub struct Kubernetes {}

impl Cloud for Kubernetes {
    fn name(&self) -> (r: String)
        ensures
            r@ == seq!['K', 'u', 'b', 'e', 'r', 'n', 'e', 't', 'e', 's'],
    {
        proof {
            reveal_strlit("Kubernetes");
        }
        let name = "Kubernetes";
        assert(name@ =~= seq!['K', 'u', 'b', 'e', 'r', 'n', 'e', 't', 'e', 's']);
        name.to_owned()
    }

    fn create(&self) -> (r: Result<(), Error>)
        ensures
            r is Ok,
    {
        Ok(())
    }
}

} // verus!
