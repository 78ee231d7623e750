//! The ConfigSet resource model.
//!
//! A `ConfigSet` declares inputs (values to read), targets (key/value
//! resources to write) and templates (rendering rules); the engine works on
//! this plain model, and the embedding program converts the cluster's
//! representation into it.

use vstd::prelude::*;

verus! {

/// The two backing kinds of key/value resources: one holds opaque bytes,
/// the other plain text.
#[derive(PartialEq, Eq, Structural, Clone, Copy, Debug)]
pub enum Kinds {
    Secret,
    ConfigMap,
}

/// Where one input value comes from: a resource of the given kind and
/// name, read at the given key.
pub struct Input {
    pub kind: Kinds,
    pub name: String,
    pub key: String,
}

/// A named input declaration.
pub struct InputWithName {
    pub name: String,
    pub from: Input,
}

/// The backing resource of a target: its kind and its actual name.
pub struct Target {
    pub kind: Kinds,
    pub name: String,
}

/// A named target declaration; templates refer to the logical `name`.
pub struct TargetWithName {
    pub name: String,
    pub target: Target,
}

/// One rendering rule: render `template` against the inputs and write the
/// result under key `name` into the target with logical name `target`.
pub struct Templates {
    pub name: String,
    pub template: String,
    pub target: String,
}

/// The declarative part of a ConfigSet.
pub struct ConfigSetSpec {
    pub targets: Vec<TargetWithName>,
    pub inputs: Vec<InputWithName>,
    pub templates: Vec<Templates>,
}

/// The status a ConfigSet may carry; reserved, never written by the
/// engine.
pub struct ConfigSetStatus {
    pub ready: bool,
}

/// One ConfigSet object as the engine sees it: its identity, whether its
/// deletion has been requested, its finalizer list, and its spec.
pub struct ConfigSet {
    pub name: String,
    pub namespace: String,
    pub uid: String,
    pub deletion_requested: bool,
    pub finalizers: Vec<String>,
    pub spec: ConfigSetSpec,
    pub status: Option<ConfigSetStatus>,
}

} // verus!
