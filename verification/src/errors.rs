//! The engine's error taxonomy.
//!
//! Every failure of a reconcile pass is one of these values.  The embedding
//! program maps store-client failures into [`EngineError::Store`]; the other
//! variants are produced by the engine itself, each carrying the name that
//! provoked it.

use vstd::prelude::*;
use vstd::string::StringExecFns;

verus! {

/// Ghost mirror of [`EngineError`]: the same variants over sequences of
/// characters, used by all contracts.
pub enum ErrView {
    /// A declared source resource does not exist in the store.
    NotFound { resource: Seq<char> },
    /// A declared key is absent from the resolved source resource.
    MissingKey { key: Seq<char> },
    /// A source byte value is not valid text.
    Encoding { key: Seq<char> },
    /// A template references a variable that does not resolve, or is
    /// malformed.
    Render { template: Seq<char> },
    /// A template references a target name that is not declared.
    Configuration { target: Seq<char> },
    /// A failure of the external store client, injected by the embedding
    /// program.
    Store { message: Seq<char> },
}

/// One reconcile failure: which rule was broken, and by which name.
#[derive(Debug)]
pub enum EngineError {
    /// A declared source resource does not exist in the store.
    NotFound { resource: String },
    /// A declared key is absent from the resolved source resource.
    MissingKey { key: String },
    /// A source byte value is not valid text.
    Encoding { key: String },
    /// A template references a variable that does not resolve, or is
    /// malformed.
    Render { template: String },
    /// A template references a target name that is not declared.
    Configuration { target: String },
    /// A failure of the external store client, injected by the embedding
    /// program.
    Store { message: String },
}

impl View for EngineError {
    type V = ErrView;

    open spec fn view(&self) -> ErrView {
        match self {
            EngineError::NotFound { resource } => ErrView::NotFound { resource: resource@ },
            EngineError::MissingKey { key } => ErrView::MissingKey { key: key@ },
            EngineError::Encoding { key } => ErrView::Encoding { key: key@ },
            EngineError::Render { template } => ErrView::Render { template: template@ },
            EngineError::Configuration { target } => ErrView::Configuration { target: target@ },
            EngineError::Store { message } => ErrView::Store { message: message@ },
        }
    }
}

impl EngineError {
    /// A short human-readable description, for the embedding program's log
    /// output.
    pub fn describe(&self) -> (r: String)
        ensures
            r@ == (match self {
                EngineError::NotFound { resource } => "resource not found: "@ + resource@,
                EngineError::MissingKey { key } => "value is not set for the key: "@ + key@,
                EngineError::Encoding { key } => "value is not valid text for the key: "@ + key@,
                EngineError::Render { template } => "template cannot be rendered: "@ + template@,
                EngineError::Configuration { target } => "target not found "@ + target@,
                EngineError::Store { message } => "store error: "@ + message@,
            }),
            r@.len() > 0,
    {
        match self {
            EngineError::NotFound { resource } => {
                proof {
                    reveal_strlit("resource not found: ");
                }
                let mut s = String::from_str("resource not found: ");
                s.append(resource.as_str());
                s
            },
            EngineError::MissingKey { key } => {
                proof {
                    reveal_strlit("value is not set for the key: ");
                }
                let mut s = String::from_str("value is not set for the key: ");
                s.append(key.as_str());
                s
            },
            EngineError::Encoding { key } => {
                proof {
                    reveal_strlit("value is not valid text for the key: ");
                }
                let mut s = String::from_str("value is not valid text for the key: ");
                s.append(key.as_str());
                s
            },
            EngineError::Render { template } => {
                proof {
                    reveal_strlit("template cannot be rendered: ");
                }
                let mut s = String::from_str("template cannot be rendered: ");
                s.append(template.as_str());
                s
            },
            EngineError::Configuration { target } => {
                proof {
                    reveal_strlit("target not found ");
                }
                let mut s = String::from_str("target not found ");
                s.append(target.as_str());
                s
            },
            EngineError::Store { message } => {
                proof {
                    reveal_strlit("store error: ");
                }
                let mut s = String::from_str("store error: ");
                s.append(message.as_str());
                s
            },
        }
    }
}

} // verus!
