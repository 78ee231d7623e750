//! The reconciliation engine: resolve inputs, provision targets, render
//! templates into them, and the symmetric cleanup.
//!
//! Every function works on an in-memory snapshot of the store
//! ([`StoreState`]); the embedding program fetches the snapshot, runs one
//! engine pass, and performs the writes of the returned plan.  Each
//! function's contract ties it to a recursive specification of the whole
//! pass, so the sequencing (inputs before targets before rendering before
//! any write) is part of what is proved.

use crate::api::{ConfigSet, InputWithName, Kinds, TargetWithName, Templates};
use crate::errors::{EngineError, ErrView};
use crate::kvmap::KvMap;
use crate::render::{render_template, spec_render};
use crate::resource::{
    res_map_wf, watched_by_key, watched_by_key_spec, finalizer_token, finalizer_token_spec,
    KvResource, OwnerRef, OwnerRefView, ResourceView, StoreState, StoreValue, StoreView,
};
use vstd::prelude::*;
use vstd::string::StringExecFns;

verus! {

/// The api version written into owner references.
pub open spec fn api_version_spec() -> Seq<char> {
    "shoebill.badhouseplants.net/v1alpha1"@
}

/// The resource kind written into owner references.
pub open spec fn owner_kind_spec() -> Seq<char> {
    "ConfigSet"@
}

/// The owner reference list a ConfigSet stamps onto resources it creates.
pub open spec fn s_owner_refs(cs: ConfigSet) -> Seq<OwnerRefView> {
    seq![
        (OwnerRefView {
            api_version: api_version_spec(),
            kind: owner_kind_spec(),
            name: cs.name@,
            uid: cs.uid@,
        }),
    ]
}

/// Builds the owner reference list for resources created on behalf of
/// this ConfigSet.
pub fn build_owner_reference(cs: &ConfigSet) -> (r: Vec<OwnerRef>)
    ensures
        r.deep_view() == s_owner_refs(*cs),
{
    let owner = OwnerRef {
        api_version: String::from_str("shoebill.badhouseplants.net/v1alpha1"),
        kind: String::from_str("ConfigSet"),
        name: cs.name.clone(),
        uid: cs.uid.clone(),
    };
    let mut v: Vec<OwnerRef> = Vec::new();
    v.push(owner);
    proof {
        assert(v.deep_view() =~= s_owner_refs(*cs));
    }
    v
}

/// The resolution of one input declaration against the snapshot: the key
/// it binds (the source key for byte-valued sources, the declared name
/// for text sources) and the resolved text, or the error.
pub open spec fn s_resolve_input(inp: InputWithName, st: StoreView) -> Result<
    (Seq<char>, Seq<char>),
    ErrView,
> {
    match inp.from.kind {
        Kinds::Secret => {
            if !st.secrets.contains_key(inp.from.name@) {
                Err(ErrView::NotFound { resource: inp.from.name@ })
            } else if !st.secrets[inp.from.name@].data.contains_key(inp.from.key@) {
                Err(ErrView::MissingKey { key: inp.from.key@ })
            } else {
                match <Vec<u8> as StoreValue>::to_text(st.secrets[inp.from.name@].data[inp.from.key@]) {
                    Some(t) => Ok((inp.from.key@, t)),
                    None => Err(ErrView::Encoding { key: inp.from.key@ }),
                }
            }
        },
        Kinds::ConfigMap => {
            if !st.configmaps.contains_key(inp.from.name@) {
                Err(ErrView::NotFound { resource: inp.from.name@ })
            } else if !st.configmaps[inp.from.name@].data.contains_key(inp.from.key@) {
                Err(ErrView::MissingKey { key: inp.from.key@ })
            } else {
                Ok((inp.name@, st.configmaps[inp.from.name@].data[inp.from.key@]))
            }
        },
    }
}

/// The input mapping after resolving the declarations from `i` on, given
/// the mapping resolved so far; the first failure aborts the whole pass.
pub open spec fn s_gather_inputs(
    inputs: Seq<InputWithName>,
    st: StoreView,
    i: int,
    acc: Map<Seq<char>, Seq<char>>,
) -> Result<Map<Seq<char>, Seq<char>>, ErrView>
    decreases inputs.len() - i,
{
    if i < 0 || i >= inputs.len() {
        Ok(acc)
    } else {
        match s_resolve_input(inputs[i], st) {
            Err(e) => Err(e),
            Ok(kv) => s_gather_inputs(inputs, st, i + 1, acc.insert(kv.0, kv.1)),
        }
    }
}

/// Reads the text under a data key of a source resource, with the
/// engine's error taxonomy: absent key or undecodable value fail.
fn resolve_value<V: StoreValue>(res: &KvResource<V>, key: &String) -> (r: Result<
    String,
    EngineError,
>)
    requires
        res.wf(),
    ensures
        match r {
            Ok(t) => res@.data.contains_key(key@) && V::to_text(res@.data[key@]) == Some(t@),
            Err(e) => e@ == (if !res@.data.contains_key(key@) {
                ErrView::MissingKey { key: key@ }
            } else {
                ErrView::Encoding { key: key@ }
            }) && (res@.data.contains_key(key@) ==> V::to_text(res@.data[key@]) is None),
        },
{
    match res.read_value(key) {
        None => Err(EngineError::MissingKey { key: key.clone() }),
        Some(None) => Err(EngineError::Encoding { key: key.clone() }),
        Some(Some(t)) => Ok(t),
    }
}

/// Resolves every declared input against the snapshot into one text
/// mapping, or fails on the first declaration that cannot be resolved.
pub fn gather_inputs(inputs: &Vec<InputWithName>, store: &StoreState) -> (r: Result<
    KvMap<String>,
    EngineError,
>)
    requires
        store.wf(),
    ensures
        match r {
            Ok(m) => m.wf() && s_gather_inputs(inputs@, store@, 0, Map::empty())
                == Ok::<_, ErrView>(m@),
            Err(e) => s_gather_inputs(inputs@, store@, 0, Map::empty()) == Err::<
                Map<Seq<char>, Seq<char>>,
                _,
            >(e@),
        },
{
    let n = inputs.len();
    let mut out: KvMap<String> = KvMap::new();
    let mut i: usize = 0;
    while i < n
        invariant
            i <= n,
            n == inputs@.len(),
            store.wf(),
            out.wf(),
            s_gather_inputs(inputs@, store@, 0, Map::empty()) == s_gather_inputs(
                inputs@,
                store@,
                i as int,
                out@,
            ),
        decreases n - i,
    {
        let inp = &inputs[i];
        let ghost out0 = out@;
        match inp.from.kind {
            Kinds::Secret => {
                match store.secrets.get(&inp.from.name) {
                    None => {
                        let e = EngineError::NotFound { resource: inp.from.name.clone() };
                        proof {
                            assert(s_resolve_input(inputs@[i as int], store@) == Err::<
                                (Seq<char>, Seq<char>),
                                _,
                            >(e@));
                        }
                        return Err(e);
                    },
                    Some(res) => {
                        proof {
                            let j = choose|j: int|
                                #![auto]
                                0 <= j < store.secrets.entry_seq().len() && *res
                                    == store.secrets.entry_seq()[j].value;
                            assert(store.secrets.entry_seq()[j].value.wf());
                        }
                        match resolve_value(res, &inp.from.key) {
                            Err(e) => {
                                proof {
                                    assert(s_resolve_input(inputs@[i as int], store@) == Err::<
                                        (Seq<char>, Seq<char>),
                                        _,
                                    >(e@));
                                }
                                return Err(e);
                            },
                            Ok(t) => {
                                proof {
                                    assert(s_resolve_input(inputs@[i as int], store@) == Ok::<
                                        _,
                                        ErrView,
                                    >((inp.from.key@, t@)));
                                }
                                out.insert(inp.from.key.clone(), t);
                            },
                        }
                    },
                }
            },
            Kinds::ConfigMap => {
                match store.configmaps.get(&inp.from.name) {
                    None => {
                        let e = EngineError::NotFound { resource: inp.from.name.clone() };
                        proof {
                            assert(s_resolve_input(inputs@[i as int], store@) == Err::<
                                (Seq<char>, Seq<char>),
                                _,
                            >(e@));
                        }
                        return Err(e);
                    },
                    Some(res) => {
                        proof {
                            let j = choose|j: int|
                                #![auto]
                                0 <= j < store.configmaps.entry_seq().len() && *res
                                    == store.configmaps.entry_seq()[j].value;
                            assert(store.configmaps.entry_seq()[j].value.wf());
                        }
                        match resolve_value(res, &inp.from.key) {
                            Err(e) => {
                                proof {
                                    assert(s_resolve_input(inputs@[i as int], store@) == Err::<
                                        (Seq<char>, Seq<char>),
                                        _,
                                    >(e@));
                                }
                                return Err(e);
                            },
                            Ok(t) => {
                                proof {
                                    assert(s_resolve_input(inputs@[i as int], store@) == Ok::<
                                        _,
                                        ErrView,
                                    >((inp.name@, t@)));
                                }
                                out.insert(inp.name.clone(), t);
                            },
                        }
                    },
                }
            },
        }
        i = i + 1;
    }
    Ok(out)
}

/// The two target maps and the created-resource lists, at the
/// specification level.
#[verifier::ext_equal]
pub struct TargetsView {
    pub secrets: Map<Seq<char>, ResourceView<Seq<u8>>>,
    pub configmaps: Map<Seq<char>, ResourceView<Seq<char>>>,
    pub created_secrets: Seq<ResourceView<Seq<u8>>>,
    pub created_configmaps: Seq<ResourceView<Seq<char>>>,
}

/// No targets gathered yet.
pub open spec fn s_empty_targets() -> TargetsView {
    TargetsView {
        secrets: Map::empty(),
        configmaps: Map::empty(),
        created_secrets: Seq::empty(),
        created_configmaps: Seq::empty(),
    }
}

/// The empty resource created for a declared target whose backing
/// resource does not exist.
pub open spec fn s_fresh_resource<VV>(
    name: Seq<char>,
    ns: Seq<char>,
    owners: Seq<OwnerRefView>,
) -> ResourceView<VV> {
    ResourceView {
        name,
        namespace: ns,
        data: Map::empty(),
        annotations: Map::empty(),
        owners,
    }
}

/// Resolving one declared target: an existing backing resource is used
/// as it stands; a missing one is created empty with the owner
/// references.
pub open spec fn s_gather_step(
    t: TargetWithName,
    st: StoreView,
    ns: Seq<char>,
    owners: Seq<OwnerRefView>,
    acc: TargetsView,
) -> TargetsView {
    match t.target.kind {
        Kinds::Secret => {
            if st.secrets.contains_key(t.target.name@) {
                TargetsView { secrets: acc.secrets.insert(t.name@, st.secrets[t.target.name@]), ..acc }
            } else {
                TargetsView {
                    secrets: acc.secrets.insert(t.name@, s_fresh_resource(t.target.name@, ns, owners)),
                    created_secrets: acc.created_secrets.push(
                        s_fresh_resource(t.target.name@, ns, owners),
                    ),
                    ..acc
                }
            }
        },
        Kinds::ConfigMap => {
            if st.configmaps.contains_key(t.target.name@) {
                TargetsView {
                    configmaps: acc.configmaps.insert(t.name@, st.configmaps[t.target.name@]),
                    ..acc
                }
            } else {
                TargetsView {
                    configmaps: acc.configmaps.insert(
                        t.name@,
                        s_fresh_resource(t.target.name@, ns, owners),
                    ),
                    created_configmaps: acc.created_configmaps.push(
                        s_fresh_resource(t.target.name@, ns, owners),
                    ),
                    ..acc
                }
            }
        },
    }
}

/// The target maps after resolving the declarations from `i` on.
pub open spec fn s_gather_targets(
    targets: Seq<TargetWithName>,
    st: StoreView,
    ns: Seq<char>,
    owners: Seq<OwnerRefView>,
    i: int,
    acc: TargetsView,
) -> TargetsView
    decreases targets.len() - i,
{
    if i < 0 || i >= targets.len() {
        acc
    } else {
        s_gather_targets(targets, st, ns, owners, i + 1, s_gather_step(targets[i], st, ns, owners, acc))
    }
}

/// The gathered targets: each kind's logical-name map and the resources
/// that had to be created.
pub struct GatheredTargets {
    pub secrets: KvMap<KvResource<Vec<u8>>>,
    pub configmaps: KvMap<KvResource<String>>,
    pub created_secrets: Vec<KvResource<Vec<u8>>>,
    pub created_configmaps: Vec<KvResource<String>>,
}

impl View for GatheredTargets {
    type V = TargetsView;

    open spec fn view(&self) -> TargetsView {
        TargetsView {
            secrets: self.secrets@,
            configmaps: self.configmaps@,
            created_secrets: self.created_secrets.deep_view(),
            created_configmaps: self.created_configmaps.deep_view(),
        }
    }
}

impl GatheredTargets {
    /// Every map layer well-formed, the created resources included.
    pub open spec fn wf(&self) -> bool {
        &&& res_map_wf(self.secrets)
        &&& res_map_wf(self.configmaps)
        &&& forall|i: int|
            0 <= i < self.created_secrets.len() ==> (#[trigger] self.created_secrets[i]).wf()
        &&& forall|i: int|
            0 <= i < self.created_configmaps.len() ==> (#[trigger] self.created_configmaps[i]).wf()
    }
}

/// Resolves every declared target to its backing resource, creating an
/// empty owned resource for each one the snapshot does not hold.
pub fn gather_targets(
    namespace: &String,
    targets: &Vec<TargetWithName>,
    owner: &Vec<OwnerRef>,
    store: &StoreState,
) -> (r: GatheredTargets)
    requires
        store.wf(),
    ensures
        r@ == s_gather_targets(
            targets@,
            store@,
            namespace@,
            owner.deep_view(),
            0,
            s_empty_targets(),
        ),
        r.wf(),
{
    let n = targets.len();
    let mut g = GatheredTargets {
        secrets: KvMap::new(),
        configmaps: KvMap::new(),
        created_secrets: Vec::new(),
        created_configmaps: Vec::new(),
    };
    proof {
        assert(g@ =~= s_empty_targets());
    }
    let mut i: usize = 0;
    while i < n
        invariant
            i <= n,
            n == targets@.len(),
            store.wf(),
            g.wf(),
            s_gather_targets(targets@, store@, namespace@, owner.deep_view(), 0, s_empty_targets())
                == s_gather_targets(targets@, store@, namespace@, owner.deep_view(), i as int, g@),
        decreases n - i,
    {
        let t = &targets[i];
        let ghost g0 = g@;
        match t.target.kind {
            Kinds::Secret => {
                let ghost m0 = g.secrets;
                match store.secrets.get(&t.target.name) {
                    Some(res) => {
                        proof {
                            let j = choose|j: int|
                                #![auto]
                                0 <= j < store.secrets.entry_seq().len() && *res
                                    == store.secrets.entry_seq()[j].value;
                            assert(store.secrets.entry_seq()[j].value.wf());
                        }
                        let copy = res.duplicate();
                        let ghost v = copy;
                        g.secrets.insert(t.name.clone(), copy);
                        proof {
                            crate::resource::lemma_res_map_wf_insert(m0, g.secrets, v);
                            assert(g@ =~= s_gather_step(
                                targets@[i as int],
                                store@,
                                namespace@,
                                owner.deep_view(),
                                g0,
                            ));
                        }
                    },
                    None => {
                        let fresh: KvResource<Vec<u8>> = KvResource::new_empty(
                            t.target.name.clone(),
                            namespace.clone(),
                            crate::resource::dup_owners(owner),
                        );
                        let copy = fresh.duplicate();
                        let ghost v = copy;
                        g.secrets.insert(t.name.clone(), copy);
                        g.created_secrets.push(fresh);
                        proof {
                            crate::resource::lemma_res_map_wf_insert(m0, g.secrets, v);
                            assert(v@ =~= s_fresh_resource(
                                t.target.name@,
                                namespace@,
                                owner.deep_view(),
                            ));
                            assert(g.created_secrets.deep_view() =~= g0.created_secrets.push(v@));
                            assert(g@ =~= s_gather_step(
                                targets@[i as int],
                                store@,
                                namespace@,
                                owner.deep_view(),
                                g0,
                            ));
                        }
                    },
                }
            },
            Kinds::ConfigMap => {
                let ghost m0 = g.configmaps;
                match store.configmaps.get(&t.target.name) {
                    Some(res) => {
                        proof {
                            let j = choose|j: int|
                                #![auto]
                                0 <= j < store.configmaps.entry_seq().len() && *res
                                    == store.configmaps.entry_seq()[j].value;
                            assert(store.configmaps.entry_seq()[j].value.wf());
                        }
                        let copy = res.duplicate();
                        let ghost v = copy;
                        g.configmaps.insert(t.name.clone(), copy);
                        proof {
                            crate::resource::lemma_res_map_wf_insert(m0, g.configmaps, v);
                            assert(g@ =~= s_gather_step(
                                targets@[i as int],
                                store@,
                                namespace@,
                                owner.deep_view(),
                                g0,
                            ));
                        }
                    },
                    None => {
                        let fresh: KvResource<String> = KvResource::new_empty(
                            t.target.name.clone(),
                            namespace.clone(),
                            crate::resource::dup_owners(owner),
                        );
                        let copy = fresh.duplicate();
                        let ghost v = copy;
                        g.configmaps.insert(t.name.clone(), copy);
                        g.created_configmaps.push(fresh);
                        proof {
                            crate::resource::lemma_res_map_wf_insert(m0, g.configmaps, v);
                            assert(v@ =~= s_fresh_resource(
                                t.target.name@,
                                namespace@,
                                owner.deep_view(),
                            ));
                            assert(g.created_configmaps.deep_view() =~= g0.created_configmaps.push(
                                v@,
                            ));
                            assert(g@ =~= s_gather_step(
                                targets@[i as int],
                                store@,
                                namespace@,
                                owner.deep_view(),
                                g0,
                            ));
                        }
                    },
                }
            },
        }
        i = i + 1;
    }
    g
}

/// The first declared target with the given logical name, if any.
pub open spec fn s_find_target(targets: Seq<TargetWithName>, name: Seq<char>, i: int) -> Option<
    TargetWithName,
>
    decreases targets.len() - i,
{
    if i < 0 || i >= targets.len() {
        None
    } else if targets[i].name@ == name {
        Some(targets[i])
    } else {
        s_find_target(targets, name, i + 1)
    }
}

/// The first declared target with the given logical name, by scanning.
fn find_target<'a>(targets: &'a Vec<TargetWithName>, name: &String) -> (r: Option<
    &'a TargetWithName,
>)
    ensures
        match r {
            Some(t) => s_find_target(targets@, name@, 0) == Some(*t),
            None => s_find_target(targets@, name@, 0) is None,
        },
{
    let n = targets.len();
    let mut i: usize = 0;
    while i < n
        invariant
            i <= n,
            n == targets@.len(),
            s_find_target(targets@, name@, 0) == s_find_target(targets@, name@, i as int),
        decreases n - i,
    {
        if targets[i].name == *name {
            return Some(&targets[i]);
        }
        proof {
            assert(s_find_target(targets@, name@, i as int) == s_find_target(
                targets@,
                name@,
                i + 1,
            ));
        }
        i = i + 1;
    }
    None
}

/// One template applied to the target maps: render, resolve the target,
/// upsert the rendered value under the template's name and refresh the
/// ownership annotation; everything else is untouched.
pub open spec fn s_build_one(
    tpl: Templates,
    targets: Seq<TargetWithName>,
    sec: Map<Seq<char>, ResourceView<Seq<u8>>>,
    cm: Map<Seq<char>, ResourceView<Seq<char>>>,
    inputs: Map<Seq<char>, Seq<char>>,
    cs_name: Seq<char>,
) -> Result<(Map<Seq<char>, ResourceView<Seq<u8>>>, Map<Seq<char>, ResourceView<Seq<char>>>), ErrView> {
    match spec_render(tpl.template@, inputs) {
        None => Err(ErrView::Render { template: tpl.name@ }),
        Some(val) => match s_find_target(targets, tpl.target@, 0) {
            None => Err(ErrView::Configuration { target: tpl.target@ }),
            Some(decl) => match decl.target.kind {
                Kinds::Secret => {
                    if sec.contains_key(tpl.target@) {
                        let r0 = sec[tpl.target@];
                        let r1 = ResourceView {
                            data: r0.data.insert(tpl.name@, <Vec<u8> as StoreValue>::of_text(val)),
                            annotations: r0.annotations.insert(watched_by_key_spec(), cs_name),
                            ..r0
                        };
                        Ok((sec.insert(tpl.target@, r1), cm))
                    } else {
                        Err(ErrView::Configuration { target: tpl.target@ })
                    }
                },
                Kinds::ConfigMap => {
                    if cm.contains_key(tpl.target@) {
                        let r0 = cm[tpl.target@];
                        let r1 = ResourceView {
                            data: r0.data.insert(tpl.name@, val),
                            annotations: r0.annotations.insert(watched_by_key_spec(), cs_name),
                            ..r0
                        };
                        Ok((sec, cm.insert(tpl.target@, r1)))
                    } else {
                        Err(ErrView::Configuration { target: tpl.target@ })
                    }
                },
            },
        },
    }
}

/// The target maps after applying the templates from `i` on; the first
/// failure aborts the whole pass.
pub open spec fn s_build_templates(
    templates: Seq<Templates>,
    targets: Seq<TargetWithName>,
    sec: Map<Seq<char>, ResourceView<Seq<u8>>>,
    cm: Map<Seq<char>, ResourceView<Seq<char>>>,
    inputs: Map<Seq<char>, Seq<char>>,
    cs_name: Seq<char>,
    i: int,
) -> Result<(Map<Seq<char>, ResourceView<Seq<u8>>>, Map<Seq<char>, ResourceView<Seq<char>>>), ErrView>
    decreases templates.len() - i,
{
    if i < 0 || i >= templates.len() {
        Ok((sec, cm))
    } else {
        match s_build_one(templates[i], targets, sec, cm, inputs, cs_name) {
            Err(e) => Err(e),
            Ok(p) => s_build_templates(templates, targets, p.0, p.1, inputs, cs_name, i + 1),
        }
    }
}

/// Renders every template against the inputs and writes the results into
/// the gathered target maps: a destructive upsert under the template's
/// name plus the ownership annotation, leaving all other keys unchanged.
pub fn build_templates(
    templates: &Vec<Templates>,
    target_secrets: &mut KvMap<KvResource<Vec<u8>>>,
    target_configmaps: &mut KvMap<KvResource<String>>,
    targets: &Vec<TargetWithName>,
    inputs: &KvMap<String>,
    confset_name: &String,
) -> (r: Result<(), EngineError>)
    requires
        res_map_wf(*old(target_secrets)),
        res_map_wf(*old(target_configmaps)),
        inputs.wf(),
    ensures
        res_map_wf(*final(target_secrets)),
        res_map_wf(*final(target_configmaps)),
        match r {
            Ok(_) => s_build_templates(
                templates@,
                targets@,
                old(target_secrets)@,
                old(target_configmaps)@,
                inputs@,
                confset_name@,
                0,
            ) == Ok::<_, ErrView>((final(target_secrets)@, final(target_configmaps)@)),
            Err(e) => s_build_templates(
                templates@,
                targets@,
                old(target_secrets)@,
                old(target_configmaps)@,
                inputs@,
                confset_name@,
                0,
            ) == Err::<(Map<Seq<char>, ResourceView<Seq<u8>>>, Map<Seq<char>, ResourceView<Seq<char>>>), ErrView>(
                e@,
            ),
        },
{
    let n = templates.len();
    let mut i: usize = 0;
    while i < n
        invariant
            i <= n,
            n == templates@.len(),
            inputs.wf(),
            res_map_wf(*target_secrets),
            res_map_wf(*target_configmaps),
            s_build_templates(
                templates@,
                targets@,
                old(target_secrets)@,
                old(target_configmaps)@,
                inputs@,
                confset_name@,
                0,
            ) == s_build_templates(
                templates@,
                targets@,
                target_secrets@,
                target_configmaps@,
                inputs@,
                confset_name@,
                i as int,
            ),
        decreases n - i,
    {
        let tpl = &templates[i];
        let ghost sec0 = target_secrets@;
        let ghost cm0 = target_configmaps@;
        match render_template(&tpl.template, inputs) {
            None => {
                let e = EngineError::Render { template: tpl.name.clone() };
                proof {
                    assert(s_build_one(templates@[i as int], targets@, sec0, cm0, inputs@, confset_name@)
                        == Err::<(Map<Seq<char>, ResourceView<Seq<u8>>>, Map<Seq<char>, ResourceView<Seq<char>>>), ErrView>(e@));
                }
                return Err(e);
            },
            Some(val) => {
                match find_target(targets, &tpl.target) {
                    None => {
                        let e = EngineError::Configuration { target: tpl.target.clone() };
                        proof {
                            assert(s_build_one(templates@[i as int], targets@, sec0, cm0, inputs@, confset_name@)
                                == Err::<(Map<Seq<char>, ResourceView<Seq<u8>>>, Map<Seq<char>, ResourceView<Seq<char>>>), ErrView>(e@));
                        }
                        return Err(e);
                    },
                    Some(decl) => {
                        match decl.target.kind {
                            Kinds::Secret => {
                                let ghost m0 = *target_secrets;
                                match target_secrets.remove(&tpl.target) {
                                    None => {
                                        let e = EngineError::Configuration {
                                            target: tpl.target.clone(),
                                        };
                                        proof {
                                            assert(s_build_one(templates@[i as int], targets@, sec0, cm0, inputs@, confset_name@)
                                                == Err::<(Map<Seq<char>, ResourceView<Seq<u8>>>, Map<Seq<char>, ResourceView<Seq<char>>>), ErrView>(e@));
                                        }
                                        return Err(e);
                                    },
                                    Some(mut res) => {
                                        proof {
                                            let j = choose|j: int|
                                                #![auto]
                                                0 <= j < m0.entry_seq().len() && res
                                                    == m0.entry_seq()[j].value && target_secrets.entry_seq()
                                                    == m0.entry_seq().remove(j);
                                            assert(m0.entry_seq()[j].value.wf());
                                            crate::resource::lemma_res_map_wf_remove(
                                                m0,
                                                *target_secrets,
                                                j,
                                            );
                                        }
                                        let ghost mid = *target_secrets;
                                        res.write_value(tpl.name.clone(), &val);
                                        res.set_annotation(watched_by_key(), confset_name.clone());
                                        let ghost v = res;
                                        target_secrets.insert(tpl.target.clone(), res);
                                        proof {
                                            crate::resource::lemma_res_map_wf_insert(
                                                mid,
                                                *target_secrets,
                                                v,
                                            );
                                            assert(target_secrets@ =~= sec0.insert(
                                                tpl.target@,
                                                v@,
                                            ));
                                            assert(s_build_one(templates@[i as int], targets@, sec0, cm0, inputs@, confset_name@)
                                                == Ok::<_, ErrView>((target_secrets@, target_configmaps@)));
                                        }
                                    },
                                }
                            },
                            Kinds::ConfigMap => {
                                let ghost m0 = *target_configmaps;
                                match target_configmaps.remove(&tpl.target) {
                                    None => {
                                        let e = EngineError::Configuration {
                                            target: tpl.target.clone(),
                                        };
                                        proof {
                                            assert(s_build_one(templates@[i as int], targets@, sec0, cm0, inputs@, confset_name@)
                                                == Err::<(Map<Seq<char>, ResourceView<Seq<u8>>>, Map<Seq<char>, ResourceView<Seq<char>>>), ErrView>(e@));
                                        }
                                        return Err(e);
                                    },
                                    Some(mut res) => {
                                        proof {
                                            let j = choose|j: int|
                                                #![auto]
                                                0 <= j < m0.entry_seq().len() && res
                                                    == m0.entry_seq()[j].value && target_configmaps.entry_seq()
                                                    == m0.entry_seq().remove(j);
                                            assert(m0.entry_seq()[j].value.wf());
                                            crate::resource::lemma_res_map_wf_remove(
                                                m0,
                                                *target_configmaps,
                                                j,
                                            );
                                        }
                                        let ghost mid = *target_configmaps;
                                        res.write_value(tpl.name.clone(), &val);
                                        res.set_annotation(watched_by_key(), confset_name.clone());
                                        let ghost v = res;
                                        target_configmaps.insert(tpl.target.clone(), res);
                                        proof {
                                            crate::resource::lemma_res_map_wf_insert(
                                                mid,
                                                *target_configmaps,
                                                v,
                                            );
                                            assert(target_configmaps@ =~= cm0.insert(
                                                tpl.target@,
                                                v@,
                                            ));
                                            assert(s_build_one(templates@[i as int], targets@, sec0, cm0, inputs@, confset_name@)
                                                == Ok::<_, ErrView>((target_secrets@, target_configmaps@)));
                                        }
                                    },
                                }
                            },
                        }
                    },
                }
            },
        }
        i = i + 1;
    }
    Ok(())
}


/// One template's cleanup: resolve the target, remove the key written
/// under the template's name and the ownership annotation; every other
/// key stays.
pub open spec fn s_cleanup_one(
    tpl: Templates,
    targets: Seq<TargetWithName>,
    sec: Map<Seq<char>, ResourceView<Seq<u8>>>,
    cm: Map<Seq<char>, ResourceView<Seq<char>>>,
) -> Result<(Map<Seq<char>, ResourceView<Seq<u8>>>, Map<Seq<char>, ResourceView<Seq<char>>>), ErrView> {
    match s_find_target(targets, tpl.target@, 0) {
        None => Err(ErrView::Configuration { target: tpl.target@ }),
        Some(decl) => match decl.target.kind {
            Kinds::Secret => {
                if sec.contains_key(tpl.target@) {
                    let r0 = sec[tpl.target@];
                    let r1 = ResourceView {
                        data: r0.data.remove(tpl.name@),
                        annotations: r0.annotations.remove(watched_by_key_spec()),
                        ..r0
                    };
                    Ok((sec.insert(tpl.target@, r1), cm))
                } else {
                    Err(ErrView::Configuration { target: tpl.target@ })
                }
            },
            Kinds::ConfigMap => {
                if cm.contains_key(tpl.target@) {
                    let r0 = cm[tpl.target@];
                    let r1 = ResourceView {
                        data: r0.data.remove(tpl.name@),
                        annotations: r0.annotations.remove(watched_by_key_spec()),
                        ..r0
                    };
                    Ok((sec, cm.insert(tpl.target@, r1)))
                } else {
                    Err(ErrView::Configuration { target: tpl.target@ })
                }
            },
        },
    }
}

/// The target maps after cleaning the templates from `i` on.
pub open spec fn s_cleanup_templates(
    templates: Seq<Templates>,
    targets: Seq<TargetWithName>,
    sec: Map<Seq<char>, ResourceView<Seq<u8>>>,
    cm: Map<Seq<char>, ResourceView<Seq<char>>>,
    i: int,
) -> Result<(Map<Seq<char>, ResourceView<Seq<u8>>>, Map<Seq<char>, ResourceView<Seq<char>>>), ErrView>
    decreases templates.len() - i,
{
    if i < 0 || i >= templates.len() {
        Ok((sec, cm))
    } else {
        match s_cleanup_one(templates[i], targets, sec, cm) {
            Err(e) => Err(e),
            Ok(p) => s_cleanup_templates(templates, targets, p.0, p.1, i + 1),
        }
    }
}

/// Removes from the gathered targets every key this ConfigSet's
/// templates wrote, and the ownership annotation; keys placed by others
/// stay untouched.
pub fn cleanup_templates(
    templates: &Vec<Templates>,
    target_secrets: &mut KvMap<KvResource<Vec<u8>>>,
    target_configmaps: &mut KvMap<KvResource<String>>,
    targets: &Vec<TargetWithName>,
) -> (r: Result<(), EngineError>)
    requires
        res_map_wf(*old(target_secrets)),
        res_map_wf(*old(target_configmaps)),
    ensures
        res_map_wf(*final(target_secrets)),
        res_map_wf(*final(target_configmaps)),
        match r {
            Ok(_) => s_cleanup_templates(
                templates@,
                targets@,
                old(target_secrets)@,
                old(target_configmaps)@,
                0,
            ) == Ok::<_, ErrView>((final(target_secrets)@, final(target_configmaps)@)),
            Err(e) => s_cleanup_templates(
                templates@,
                targets@,
                old(target_secrets)@,
                old(target_configmaps)@,
                0,
            ) == Err::<(Map<Seq<char>, ResourceView<Seq<u8>>>, Map<Seq<char>, ResourceView<Seq<char>>>), ErrView>(
                e@,
            ),
        },
{
    let n = templates.len();
    let mut i: usize = 0;
    while i < n
        invariant
            i <= n,
            n == templates@.len(),
            res_map_wf(*target_secrets),
            res_map_wf(*target_configmaps),
            s_cleanup_templates(
                templates@,
                targets@,
                old(target_secrets)@,
                old(target_configmaps)@,
                0,
            ) == s_cleanup_templates(
                templates@,
                targets@,
                target_secrets@,
                target_configmaps@,
                i as int,
            ),
        decreases n - i,
    {
        let tpl = &templates[i];
        let ghost sec0 = target_secrets@;
        let ghost cm0 = target_configmaps@;
        match find_target(targets, &tpl.target) {
            None => {
                let e = EngineError::Configuration { target: tpl.target.clone() };
                proof {
                    assert(s_cleanup_one(templates@[i as int], targets@, sec0, cm0)
                        == Err::<(Map<Seq<char>, ResourceView<Seq<u8>>>, Map<Seq<char>, ResourceView<Seq<char>>>), ErrView>(e@));
                }
                return Err(e);
            },
            Some(decl) => {
                match decl.target.kind {
                    Kinds::Secret => {
                        let ghost m0 = *target_secrets;
                        match target_secrets.remove(&tpl.target) {
                            None => {
                                let e = EngineError::Configuration { target: tpl.target.clone() };
                                proof {
                                    assert(s_cleanup_one(templates@[i as int], targets@, sec0, cm0)
                                        == Err::<(Map<Seq<char>, ResourceView<Seq<u8>>>, Map<Seq<char>, ResourceView<Seq<char>>>), ErrView>(e@));
                                }
                                return Err(e);
                            },
                            Some(mut res) => {
                                proof {
                                    let j = choose|j: int|
                                        #![auto]
                                        0 <= j < m0.entry_seq().len() && res == m0.entry_seq()[
                                            j
                                        ].value && target_secrets.entry_seq() == m0.entry_seq().remove(j);
                                    assert(m0.entry_seq()[j].value.wf());
                                    crate::resource::lemma_res_map_wf_remove(m0, *target_secrets, j);
                                }
                                let ghost mid = *target_secrets;
                                res.delete_value(&tpl.name);
                                res.remove_annotation(&watched_by_key());
                                let ghost v = res;
                                target_secrets.insert(tpl.target.clone(), res);
                                proof {
                                    crate::resource::lemma_res_map_wf_insert(mid, *target_secrets, v);
                                    assert(target_secrets@ =~= sec0.insert(tpl.target@, v@));
                                    assert(s_cleanup_one(templates@[i as int], targets@, sec0, cm0)
                                        == Ok::<_, ErrView>((target_secrets@, target_configmaps@)));
                                }
                            },
                        }
                    },
                    Kinds::ConfigMap => {
                        let ghost m0 = *target_configmaps;
                        match target_configmaps.remove(&tpl.target) {
                            None => {
                                let e = EngineError::Configuration { target: tpl.target.clone() };
                                proof {
                                    assert(s_cleanup_one(templates@[i as int], targets@, sec0, cm0)
                                        == Err::<(Map<Seq<char>, ResourceView<Seq<u8>>>, Map<Seq<char>, ResourceView<Seq<char>>>), ErrView>(e@));
                                }
                                return Err(e);
                            },
                            Some(mut res) => {
                                proof {
                                    let j = choose|j: int|
                                        #![auto]
                                        0 <= j < m0.entry_seq().len() && res == m0.entry_seq()[
                                            j
                                        ].value && target_configmaps.entry_seq() == m0.entry_seq().remove(j);
                                    assert(m0.entry_seq()[j].value.wf());
                                    crate::resource::lemma_res_map_wf_remove(
                                        m0,
                                        *target_configmaps,
                                        j,
                                    );
                                }
                                let ghost mid = *target_configmaps;
                                res.delete_value(&tpl.name);
                                res.remove_annotation(&watched_by_key());
                                let ghost v = res;
                                target_configmaps.insert(tpl.target.clone(), res);
                                proof {
                                    crate::resource::lemma_res_map_wf_insert(
                                        mid,
                                        *target_configmaps,
                                        v,
                                    );
                                    assert(target_configmaps@ =~= cm0.insert(tpl.target@, v@));
                                    assert(s_cleanup_one(templates@[i as int], targets@, sec0, cm0)
                                        == Ok::<_, ErrView>((target_secrets@, target_configmaps@)));
                                }
                            },
                        }
                    },
                }
            },
        }
        i = i + 1;
    }
    Ok(())
}


/// The outcome of one apply or cleanup pass, at the specification level:
/// what is created, and the final contents each target is replaced with.
#[verifier::ext_equal]
pub struct PlanView {
    pub created_secrets: Seq<ResourceView<Seq<u8>>>,
    pub created_configmaps: Seq<ResourceView<Seq<char>>>,
    pub secrets: Map<Seq<char>, ResourceView<Seq<u8>>>,
    pub configmaps: Map<Seq<char>, ResourceView<Seq<char>>>,
}

/// The writes one engine pass asks the embedding program to perform: the
/// empty resources to create first (in declaration order), then every
/// gathered target replaced with its final contents, keyed by logical
/// target name.
pub struct ReconcilePlan {
    pub created_secrets: Vec<KvResource<Vec<u8>>>,
    pub created_configmaps: Vec<KvResource<String>>,
    pub secrets: KvMap<KvResource<Vec<u8>>>,
    pub configmaps: KvMap<KvResource<String>>,
}

impl View for ReconcilePlan {
    type V = PlanView;

    open spec fn view(&self) -> PlanView {
        PlanView {
            created_secrets: self.created_secrets.deep_view(),
            created_configmaps: self.created_configmaps.deep_view(),
            secrets: self.secrets@,
            configmaps: self.configmaps@,
        }
    }
}

impl ReconcilePlan {
    /// Every map layer well-formed, the created resources included.
    pub open spec fn wf(&self) -> bool {
        &&& res_map_wf(self.secrets)
        &&& res_map_wf(self.configmaps)
        &&& forall|i: int|
            0 <= i < self.created_secrets.len() ==> (#[trigger] self.created_secrets[i]).wf()
        &&& forall|i: int|
            0 <= i < self.created_configmaps.len() ==> (#[trigger] self.created_configmaps[i]).wf()
    }
}

/// One whole apply pass: resolve the inputs, then gather the targets,
/// then render every template into them; the first failure aborts the
/// pass before any write is planned.
pub open spec fn s_apply(cs: ConfigSet, st: StoreView) -> Result<PlanView, ErrView> {
    match s_gather_inputs(cs.spec.inputs@, st, 0, Map::empty()) {
        Err(e) => Err(e),
        Ok(inputs) => {
            let tv = s_gather_targets(
                cs.spec.targets@,
                st,
                cs.namespace@,
                s_owner_refs(cs),
                0,
                s_empty_targets(),
            );
            match s_build_templates(
                cs.spec.templates@,
                cs.spec.targets@,
                tv.secrets,
                tv.configmaps,
                inputs,
                cs.name@,
                0,
            ) {
                Err(e) => Err(e),
                Ok(p) => Ok(
                    PlanView {
                        created_secrets: tv.created_secrets,
                        created_configmaps: tv.created_configmaps,
                        secrets: p.0,
                        configmaps: p.1,
                    },
                ),
            }
        },
    }
}

/// One whole cleanup pass: the same input and target resolution, then
/// every template's key and the ownership annotation removed.
pub open spec fn s_cleanup(cs: ConfigSet, st: StoreView) -> Result<PlanView, ErrView> {
    match s_gather_inputs(cs.spec.inputs@, st, 0, Map::empty()) {
        Err(e) => Err(e),
        Ok(inputs) => {
            let tv = s_gather_targets(
                cs.spec.targets@,
                st,
                cs.namespace@,
                s_owner_refs(cs),
                0,
                s_empty_targets(),
            );
            match s_cleanup_templates(
                cs.spec.templates@,
                cs.spec.targets@,
                tv.secrets,
                tv.configmaps,
                0,
            ) {
                Err(e) => Err(e),
                Ok(p) => Ok(
                    PlanView {
                        created_secrets: tv.created_secrets,
                        created_configmaps: tv.created_configmaps,
                        secrets: p.0,
                        configmaps: p.1,
                    },
                ),
            }
        },
    }
}

/// One apply pass over the snapshot: inputs, targets, templates, in that
/// order; `Ok` carries the writes to perform, `Err` the first failure,
/// with no writes planned.
pub fn reconcile_apply(cs: &ConfigSet, store: &StoreState) -> (r: Result<
    ReconcilePlan,
    EngineError,
>)
    requires
        store.wf(),
    ensures
        match r {
            Ok(p) => s_apply(*cs, store@) == Ok::<_, ErrView>(p@) && p.wf(),
            Err(e) => s_apply(*cs, store@) == Err::<PlanView, ErrView>(e@),
        },
{
    let inputs = match gather_inputs(&cs.spec.inputs, store) {
        Ok(m) => m,
        Err(e) => {
            return Err(e);
        },
    };
    let owner = build_owner_reference(cs);
    let g = gather_targets(&cs.namespace, &cs.spec.targets, &owner, store);
    let GatheredTargets { mut secrets, mut configmaps, created_secrets, created_configmaps } = g;
    match build_templates(
        &cs.spec.templates,
        &mut secrets,
        &mut configmaps,
        &cs.spec.targets,
        &inputs,
        &cs.name,
    ) {
        Ok(_) => {
            let plan = ReconcilePlan { created_secrets, created_configmaps, secrets, configmaps };
            proof {
                assert(s_apply(*cs, store@) == Ok::<_, ErrView>(plan@));
            }
            Ok(plan)
        },
        Err(e) => Err(e),
    }
}

/// One cleanup pass over the snapshot: the same resolution as apply,
/// then the templates' keys and the ownership annotation removed from
/// every gathered target.
pub fn reconcile_cleanup(cs: &ConfigSet, store: &StoreState) -> (r: Result<
    ReconcilePlan,
    EngineError,
>)
    requires
        store.wf(),
    ensures
        match r {
            Ok(p) => s_cleanup(*cs, store@) == Ok::<_, ErrView>(p@) && p.wf(),
            Err(e) => s_cleanup(*cs, store@) == Err::<PlanView, ErrView>(e@),
        },
{
    let inputs = match gather_inputs(&cs.spec.inputs, store) {
        Ok(m) => m,
        Err(e) => {
            return Err(e);
        },
    };
    let owner = build_owner_reference(cs);
    let g = gather_targets(&cs.namespace, &cs.spec.targets, &owner, store);
    let GatheredTargets { mut secrets, mut configmaps, created_secrets, created_configmaps } = g;
    match cleanup_templates(&cs.spec.templates, &mut secrets, &mut configmaps, &cs.spec.targets) {
        Ok(_) => {
            let plan = ReconcilePlan { created_secrets, created_configmaps, secrets, configmaps };
            proof {
                assert(s_cleanup(*cs, store@) == Ok::<_, ErrView>(plan@));
            }
            Ok(plan)
        },
        Err(e) => Err(e),
    }
}

/// What the finalizer state machine asks for on one observation.
#[derive(PartialEq, Eq, Structural, Clone, Copy, Debug)]
pub enum FinalizerEvent {
    /// The token is missing and no deletion is pending: add the token
    /// before any other work.
    Register,
    /// The token is present and no deletion is pending: run the apply
    /// path.
    Apply,
    /// Deletion is pending and the token is present: run the cleanup
    /// path, then remove the token.
    Cleanup,
    /// Deletion is pending and the token is gone: nothing left to do.
    Finished,
}

/// Whether the finalizer token occurs in a finalizer list.
pub open spec fn s_has_token(fins: Seq<Seq<char>>) -> bool {
    exists|i: int| 0 <= i < fins.len() && fins[i] == finalizer_token_spec()
}

/// The event the finalizer state machine derives from one observation.
pub open spec fn s_finalizer_event(cs: ConfigSet) -> FinalizerEvent {
    if cs.deletion_requested {
        if s_has_token(cs.finalizers.deep_view()) {
            FinalizerEvent::Cleanup
        } else {
            FinalizerEvent::Finished
        }
    } else {
        if s_has_token(cs.finalizers.deep_view()) {
            FinalizerEvent::Apply
        } else {
            FinalizerEvent::Register
        }
    }
}

/// Whether the ConfigSet carries the engine's finalizer token.
pub fn has_finalizer(cs: &ConfigSet) -> (r: bool)
    ensures
        r == s_has_token(cs.finalizers.deep_view()),
{
    let token = finalizer_token();
    let n = cs.finalizers.len();
    let mut i: usize = 0;
    while i < n
        invariant
            i <= n,
            n == cs.finalizers.len(),
            token@ == finalizer_token_spec(),
            forall|j: int| 0 <= j < i ==> cs.finalizers.deep_view()[j] != finalizer_token_spec(),
        decreases n - i,
    {
        if cs.finalizers[i] == token {
            proof {
                assert(cs.finalizers.deep_view()[i as int] == finalizer_token_spec());
            }
            return true;
        }
        i = i + 1;
    }
    false
}

/// Classifies one observation of a ConfigSet into the next move of the
/// finalizer state machine.
pub fn finalizer_event(cs: &ConfigSet) -> (r: FinalizerEvent)
    ensures
        r == s_finalizer_event(*cs),
{
    let has = has_finalizer(cs);
    if cs.deletion_requested {
        if has {
            FinalizerEvent::Cleanup
        } else {
            FinalizerEvent::Finished
        }
    } else {
        if has {
            FinalizerEvent::Apply
        } else {
            FinalizerEvent::Register
        }
    }
}

/// The finalizer list with the engine's token appended.
pub fn add_finalizer(finalizers: &Vec<String>) -> (r: Vec<String>)
    ensures
        r.deep_view() == finalizers.deep_view().push(finalizer_token_spec()),
{
    let n = finalizers.len();
    let mut r: Vec<String> = Vec::new();
    let mut i: usize = 0;
    while i < n
        invariant
            i <= n,
            n == finalizers.len(),
            r.len() == i,
            forall|j: int| 0 <= j < i ==> r.deep_view()[j] == finalizers.deep_view()[j],
        decreases n - i,
    {
        r.push(finalizers[i].clone());
        i = i + 1;
    }
    r.push(finalizer_token());
    proof {
        assert(r.deep_view() =~= finalizers.deep_view().push(finalizer_token_spec()));
    }
    r
}

/// The finalizer list without the engine's token, other entries kept in
/// order.
pub open spec fn s_without_token(fins: Seq<Seq<char>>, i: int) -> Seq<Seq<char>>
    decreases fins.len() - i,
{
    if i < 0 || i >= fins.len() {
        Seq::empty()
    } else if fins[i] == finalizer_token_spec() {
        s_without_token(fins, i + 1)
    } else {
        seq![fins[i]] + s_without_token(fins, i + 1)
    }
}

/// The finalizer list with every occurrence of the engine's token
/// removed, other entries kept in order.
pub fn remove_finalizer(finalizers: &Vec<String>) -> (r: Vec<String>)
    ensures
        r.deep_view() == s_without_token(finalizers.deep_view(), 0),
{
    let token = finalizer_token();
    let n = finalizers.len();
    let mut r: Vec<String> = Vec::new();
    let mut i: usize = 0;
    while i < n
        invariant
            i <= n,
            n == finalizers.len(),
            token@ == finalizer_token_spec(),
            s_without_token(finalizers.deep_view(), 0) == r.deep_view() + s_without_token(
                finalizers.deep_view(),
                i as int,
            ),
        decreases n - i,
    {
        let ghost r0 = r.deep_view();
        if !(finalizers[i] == token) {
            r.push(finalizers[i].clone());
            proof {
                assert(finalizers.deep_view()[i as int] != finalizer_token_spec());
                assert(r.deep_view() =~= r0.push(finalizers.deep_view()[i as int]));
                assert((r0 + (seq![finalizers.deep_view()[i as int]] + s_without_token(
                    finalizers.deep_view(),
                    i + 1,
                ))) =~= (r.deep_view() + s_without_token(finalizers.deep_view(), i + 1)));
            }
        } else {
            proof {
                assert(finalizers.deep_view()[i as int] == finalizer_token_spec());
            }
        }
        i = i + 1;
    }
    proof {
        assert(s_without_token(finalizers.deep_view(), n as int) =~= Seq::<Seq<char>>::empty());
        assert(r.deep_view() + Seq::<Seq<char>>::empty() =~= r.deep_view());
    }
    r
}

} // verus!
