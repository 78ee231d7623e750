//! The engine's cross-cutting laws, proved over the pass specifications.
//!
//! Each law is a public proof function; its contract is the law, its body
//! the proof.  The laws quantify over every ConfigSet, snapshot and input
//! mapping, so they hold of every run of the engine, not of chosen
//! examples (those live in the test suite).

use crate::api::{ConfigSet, Kinds, TargetWithName, Templates};
use crate::engine::{
    s_apply, s_build_one, s_build_templates, s_cleanup, s_cleanup_one, s_cleanup_templates,
    s_empty_targets, s_find_target, s_gather_inputs, s_gather_step, s_gather_targets, s_owner_refs,
    PlanView, TargetsView,
};
use crate::errors::ErrView;
use crate::render::spec_render;
use crate::resource::{watched_by_key_spec, ResourceView, StoreValue, StoreView};
use vstd::prelude::*;

verus! {

/// Input resolution comes first: if it fails on any declaration, the
/// whole apply pass fails with that very error, and no write is planned.
pub proof fn lemma_failed_inputs_abort_apply(cs: ConfigSet, st: StoreView, e: ErrView)
    requires
        s_gather_inputs(cs.spec.inputs@, st, 0, Map::empty()) == Err::<
            Map<Seq<char>, Seq<char>>,
            ErrView,
        >(e),
    ensures
        s_apply(cs, st) == Err::<crate::engine::PlanView, ErrView>(e),
{
}

/// The same, for the cleanup pass.
pub proof fn lemma_failed_inputs_abort_cleanup(cs: ConfigSet, st: StoreView, e: ErrView)
    requires
        s_gather_inputs(cs.spec.inputs@, st, 0, Map::empty()) == Err::<
            Map<Seq<char>, Seq<char>>,
            ErrView,
        >(e),
    ensures
        s_cleanup(cs, st) == Err::<crate::engine::PlanView, ErrView>(e),
{
}

/// Rendering comes before any write: if any template of the pass fails,
/// the whole apply pass fails with that very error, and no write is
/// planned.
pub proof fn lemma_failed_build_abort_apply(
    cs: ConfigSet,
    st: StoreView,
    inputs: Map<Seq<char>, Seq<char>>,
    e: ErrView,
)
    requires
        s_gather_inputs(cs.spec.inputs@, st, 0, Map::empty()) == Ok::<_, ErrView>(inputs),
        ({
            let tv = crate::engine::s_gather_targets(
                cs.spec.targets@,
                st,
                cs.namespace@,
                crate::engine::s_owner_refs(cs),
                0,
                crate::engine::s_empty_targets(),
            );
            s_build_templates(
                cs.spec.templates@,
                cs.spec.targets@,
                tv.secrets,
                tv.configmaps,
                inputs,
                cs.name@,
                0,
            ) == Err::<
                (
                    Map<Seq<char>, ResourceView<Seq<u8>>>,
                    Map<Seq<char>, ResourceView<Seq<char>>>,
                ),
                ErrView,
            >(e)
        }),
    ensures
        s_apply(cs, st) == Err::<crate::engine::PlanView, ErrView>(e),
{
}

/// Whether this template resolves to a declared target of the given kind
/// with the given logical name.
pub open spec fn s_targets_as(
    tpl: Templates,
    targets: Seq<TargetWithName>,
    kind: Kinds,
    t: Seq<char>,
) -> bool {
    &&& tpl.target@ == t
    &&& match s_find_target(targets, tpl.target@, 0) {
        Some(decl) => decl.target.kind == kind,
        None => false,
    }
}

/// The names of the templates from `i` on that write into the target of
/// the given kind and logical name.
pub open spec fn s_written_names(
    templates: Seq<Templates>,
    targets: Seq<TargetWithName>,
    kind: Kinds,
    t: Seq<char>,
    i: int,
) -> Set<Seq<char>>
    decreases templates.len() - i,
{
    if i < 0 || i >= templates.len() {
        Set::empty()
    } else {
        let rest = s_written_names(templates, targets, kind, t, i + 1);
        if s_targets_as(templates[i], targets, kind, t) {
            rest.insert(templates[i].name@)
        } else {
            rest
        }
    }
}

/// Key-set law, byte-valued targets: a successful build leaves each
/// gathered target's data map holding exactly its previous keys plus the
/// names of the templates that write into it; every key outside those
/// names keeps its previous value, and the target's identity and owners
/// are untouched.
pub proof fn lemma_build_keyset_secret(
    templates: Seq<Templates>,
    targets: Seq<TargetWithName>,
    sec: Map<Seq<char>, ResourceView<Seq<u8>>>,
    cm: Map<Seq<char>, ResourceView<Seq<char>>>,
    inputs: Map<Seq<char>, Seq<char>>,
    cs_name: Seq<char>,
    i: int,
    fsec: Map<Seq<char>, ResourceView<Seq<u8>>>,
    fcm: Map<Seq<char>, ResourceView<Seq<char>>>,
    t: Seq<char>,
)
    requires
        s_build_templates(templates, targets, sec, cm, inputs, cs_name, i) == Ok::<_, ErrView>(
            (fsec, fcm),
        ),
        sec.contains_key(t),
    ensures
        fsec.contains_key(t),
        fsec[t].name == sec[t].name,
        fsec[t].namespace == sec[t].namespace,
        fsec[t].owners == sec[t].owners,
        fsec[t].data.dom() =~= sec[t].data.dom() + s_written_names(
            templates,
            targets,
            Kinds::Secret,
            t,
            i,
        ),
        forall|k: Seq<char>|
            !s_written_names(templates, targets, Kinds::Secret, t, i).contains(k) ==> (
            fsec[t].data.contains_key(k) == sec[t].data.contains_key(k) && (sec[t].data.contains_key(
                k,
            ) ==> fsec[t].data[k] == sec[t].data[k])),
        fsec[t].annotations.remove(watched_by_key_spec()) =~= sec[t].annotations.remove(
            watched_by_key_spec(),
        ),
        s_written_names(templates, targets, Kinds::Secret, t, i) != Set::<Seq<char>>::empty()
            ==> fsec[t].annotations.contains_key(watched_by_key_spec()) && fsec[t].annotations[
            watched_by_key_spec()
        ] == cs_name,
        s_written_names(templates, targets, Kinds::Secret, t, i) == Set::<Seq<char>>::empty() ==> (
        fsec[t].annotations.contains_key(watched_by_key_spec()) == sec[t].annotations.contains_key(
            watched_by_key_spec(),
        ) && (sec[t].annotations.contains_key(watched_by_key_spec()) ==> fsec[t].annotations[
            watched_by_key_spec()
        ] == sec[t].annotations[watched_by_key_spec()])),
    decreases templates.len() - i,
{
    if i < 0 || i >= templates.len() {
        assert(fsec =~= sec);
        assert(fsec[t].data.dom() =~= sec[t].data.dom() + Set::<Seq<char>>::empty());
    } else {
        let step = s_build_one(templates[i], targets, sec, cm, inputs, cs_name);
        assert(step is Ok);
        let sec1 = step->Ok_0.0;
        let cm1 = step->Ok_0.1;
        lemma_build_keyset_secret(
            templates,
            targets,
            sec1,
            cm1,
            inputs,
            cs_name,
            i + 1,
            fsec,
            fcm,
            t,
        );
        let names1 = s_written_names(templates, targets, Kinds::Secret, t, i + 1);
        let names0 = s_written_names(templates, targets, Kinds::Secret, t, i);
        if s_targets_as(templates[i], targets, Kinds::Secret, t) {
            assert(sec1[t].data.dom() =~= sec[t].data.dom().insert(templates[i].name@));
            assert(fsec[t].data.dom() =~= sec[t].data.dom() + names0);
            assert(sec1[t].annotations == sec[t].annotations.insert(
                watched_by_key_spec(),
                cs_name,
            ));
            assert(sec1[t].annotations.remove(watched_by_key_spec()) =~= sec[t].annotations.remove(
                watched_by_key_spec(),
            ));
            if names1 =~= Set::<Seq<char>>::empty() {
                assert(names0.contains(templates[i].name@));
                assert(names0 != Set::<Seq<char>>::empty());
                assert(sec1[t].annotations.contains_key(watched_by_key_spec()));
                assert(fsec[t].annotations[watched_by_key_spec()] == cs_name);
            }
        } else {
            assert(names0 =~= names1);
            assert(sec1.contains_key(t));
            assert(sec1[t] == sec[t]);
            assert(fsec[t].data.dom() =~= sec[t].data.dom() + names0);
        }
    }
}

/// Ownership-scoping law, byte-valued targets: a successful cleanup
/// removes from each gathered target exactly the keys named by the
/// templates that write into it, and the ownership annotation; every
/// other key, and the target's identity and owners, stay untouched.
pub proof fn lemma_cleanup_scoped_secret(
    templates: Seq<Templates>,
    targets: Seq<TargetWithName>,
    sec: Map<Seq<char>, ResourceView<Seq<u8>>>,
    cm: Map<Seq<char>, ResourceView<Seq<char>>>,
    i: int,
    fsec: Map<Seq<char>, ResourceView<Seq<u8>>>,
    fcm: Map<Seq<char>, ResourceView<Seq<char>>>,
    t: Seq<char>,
)
    requires
        s_cleanup_templates(templates, targets, sec, cm, i) == Ok::<_, ErrView>((fsec, fcm)),
        sec.contains_key(t),
    ensures
        fsec.contains_key(t),
        fsec[t].name == sec[t].name,
        fsec[t].namespace == sec[t].namespace,
        fsec[t].owners == sec[t].owners,
        fsec[t].data.dom() =~= sec[t].data.dom() - s_written_names(
            templates,
            targets,
            Kinds::Secret,
            t,
            i,
        ),
        forall|k: Seq<char>|
            !s_written_names(templates, targets, Kinds::Secret, t, i).contains(k) ==> (
            fsec[t].data.contains_key(k) == sec[t].data.contains_key(k) && (sec[t].data.contains_key(
                k,
            ) ==> fsec[t].data[k] == sec[t].data[k])),
        fsec[t].annotations.remove(watched_by_key_spec()) =~= sec[t].annotations.remove(
            watched_by_key_spec(),
        ),
        s_written_names(templates, targets, Kinds::Secret, t, i) != Set::<Seq<char>>::empty()
            ==> !fsec[t].annotations.contains_key(watched_by_key_spec()),
        s_written_names(templates, targets, Kinds::Secret, t, i) == Set::<Seq<char>>::empty() ==> (
        fsec[t].annotations.contains_key(watched_by_key_spec()) == sec[t].annotations.contains_key(
            watched_by_key_spec(),
        ) && (sec[t].annotations.contains_key(watched_by_key_spec()) ==> fsec[t].annotations[
            watched_by_key_spec()
        ] == sec[t].annotations[watched_by_key_spec()])),
    decreases templates.len() - i,
{
    if i < 0 || i >= templates.len() {
        assert(fsec =~= sec);
        assert(fsec[t].data.dom() =~= sec[t].data.dom() - Set::<Seq<char>>::empty());
    } else {
        let step = s_cleanup_one(templates[i], targets, sec, cm);
        assert(step is Ok);
        let sec1 = step->Ok_0.0;
        let cm1 = step->Ok_0.1;
        lemma_cleanup_scoped_secret(templates, targets, sec1, cm1, i + 1, fsec, fcm, t);
        let names1 = s_written_names(templates, targets, Kinds::Secret, t, i + 1);
        let names0 = s_written_names(templates, targets, Kinds::Secret, t, i);
        if s_targets_as(templates[i], targets, Kinds::Secret, t) {
            assert(sec1[t].data.dom() =~= sec[t].data.dom().remove(templates[i].name@));
            assert(fsec[t].data.dom() =~= sec[t].data.dom() - names0);
            assert(sec1[t].annotations == sec[t].annotations.remove(watched_by_key_spec()));
            assert(sec1[t].annotations.remove(watched_by_key_spec()) =~= sec[t].annotations.remove(
                watched_by_key_spec(),
            ));
            if names1 =~= Set::<Seq<char>>::empty() {
                assert(names0.contains(templates[i].name@));
                assert(names0 != Set::<Seq<char>>::empty());
                assert(!sec1[t].annotations.contains_key(watched_by_key_spec()));
                assert(!fsec[t].annotations.contains_key(watched_by_key_spec()));
            }
        } else {
            assert(names0 =~= names1);
            assert(sec1.contains_key(t));
            assert(sec1[t] == sec[t]);
            assert(fsec[t].data.dom() =~= sec[t].data.dom() - names0);
        }
    }
}

/// Key-set law, text-valued targets: the mirror of
/// [`lemma_build_keyset_secret`] for the other backing kind.
pub proof fn lemma_build_keyset_configmap(
    templates: Seq<Templates>,
    targets: Seq<TargetWithName>,
    sec: Map<Seq<char>, ResourceView<Seq<u8>>>,
    cm: Map<Seq<char>, ResourceView<Seq<char>>>,
    inputs: Map<Seq<char>, Seq<char>>,
    cs_name: Seq<char>,
    i: int,
    fsec: Map<Seq<char>, ResourceView<Seq<u8>>>,
    fcm: Map<Seq<char>, ResourceView<Seq<char>>>,
    t: Seq<char>,
)
    requires
        s_build_templates(templates, targets, sec, cm, inputs, cs_name, i) == Ok::<_, ErrView>(
            (fsec, fcm),
        ),
        cm.contains_key(t),
    ensures
        fcm.contains_key(t),
        fcm[t].name == cm[t].name,
        fcm[t].namespace == cm[t].namespace,
        fcm[t].owners == cm[t].owners,
        fcm[t].data.dom() =~= cm[t].data.dom() + s_written_names(
            templates,
            targets,
            Kinds::ConfigMap,
            t,
            i,
        ),
        forall|k: Seq<char>|
            !s_written_names(templates, targets, Kinds::ConfigMap, t, i).contains(k) ==> (
            fcm[t].data.contains_key(k) == cm[t].data.contains_key(k) && (cm[t].data.contains_key(
                k,
            ) ==> fcm[t].data[k] == cm[t].data[k])),
        fcm[t].annotations.remove(watched_by_key_spec()) =~= cm[t].annotations.remove(
            watched_by_key_spec(),
        ),
        s_written_names(templates, targets, Kinds::ConfigMap, t, i) != Set::<Seq<char>>::empty()
            ==> fcm[t].annotations.contains_key(watched_by_key_spec()) && fcm[t].annotations[
            watched_by_key_spec()
        ] == cs_name,
        s_written_names(templates, targets, Kinds::ConfigMap, t, i) == Set::<Seq<char>>::empty()
            ==> (fcm[t].annotations.contains_key(watched_by_key_spec()) == cm[
            t
        ].annotations.contains_key(watched_by_key_spec()) && (cm[t].annotations.contains_key(
            watched_by_key_spec(),
        ) ==> fcm[t].annotations[watched_by_key_spec()] == cm[t].annotations[watched_by_key_spec()])),
    decreases templates.len() - i,
{
    if i < 0 || i >= templates.len() {
        assert(fcm =~= cm);
        assert(fcm[t].data.dom() =~= cm[t].data.dom() + Set::<Seq<char>>::empty());
    } else {
        let step = s_build_one(templates[i], targets, sec, cm, inputs, cs_name);
        assert(step is Ok);
        let sec1 = step->Ok_0.0;
        let cm1 = step->Ok_0.1;
        lemma_build_keyset_configmap(
            templates,
            targets,
            sec1,
            cm1,
            inputs,
            cs_name,
            i + 1,
            fsec,
            fcm,
            t,
        );
        let names1 = s_written_names(templates, targets, Kinds::ConfigMap, t, i + 1);
        let names0 = s_written_names(templates, targets, Kinds::ConfigMap, t, i);
        if s_targets_as(templates[i], targets, Kinds::ConfigMap, t) {
            assert(cm1[t].data.dom() =~= cm[t].data.dom().insert(templates[i].name@));
            assert(fcm[t].data.dom() =~= cm[t].data.dom() + names0);
            assert(cm1[t].annotations == cm[t].annotations.insert(watched_by_key_spec(), cs_name));
            assert(cm1[t].annotations.remove(watched_by_key_spec()) =~= cm[t].annotations.remove(
                watched_by_key_spec(),
            ));
            if names1 =~= Set::<Seq<char>>::empty() {
                assert(names0.contains(templates[i].name@));
                assert(names0 != Set::<Seq<char>>::empty());
                assert(cm1[t].annotations.contains_key(watched_by_key_spec()));
                assert(fcm[t].annotations[watched_by_key_spec()] == cs_name);
            }
        } else {
            assert(names0 =~= names1);
            assert(cm1.contains_key(t));
            assert(cm1[t] == cm[t]);
            assert(fcm[t].data.dom() =~= cm[t].data.dom() + names0);
        }
    }
}

/// Ownership-scoping law, text-valued targets: the mirror of
/// [`lemma_cleanup_scoped_secret`] for the other backing kind.
pub proof fn lemma_cleanup_scoped_configmap(
    templates: Seq<Templates>,
    targets: Seq<TargetWithName>,
    sec: Map<Seq<char>, ResourceView<Seq<u8>>>,
    cm: Map<Seq<char>, ResourceView<Seq<char>>>,
    i: int,
    fsec: Map<Seq<char>, ResourceView<Seq<u8>>>,
    fcm: Map<Seq<char>, ResourceView<Seq<char>>>,
    t: Seq<char>,
)
    requires
        s_cleanup_templates(templates, targets, sec, cm, i) == Ok::<_, ErrView>((fsec, fcm)),
        cm.contains_key(t),
    ensures
        fcm.contains_key(t),
        fcm[t].name == cm[t].name,
        fcm[t].namespace == cm[t].namespace,
        fcm[t].owners == cm[t].owners,
        fcm[t].data.dom() =~= cm[t].data.dom() - s_written_names(
            templates,
            targets,
            Kinds::ConfigMap,
            t,
            i,
        ),
        forall|k: Seq<char>|
            !s_written_names(templates, targets, Kinds::ConfigMap, t, i).contains(k) ==> (
            fcm[t].data.contains_key(k) == cm[t].data.contains_key(k) && (cm[t].data.contains_key(
                k,
            ) ==> fcm[t].data[k] == cm[t].data[k])),
        fcm[t].annotations.remove(watched_by_key_spec()) =~= cm[t].annotations.remove(
            watched_by_key_spec(),
        ),
        s_written_names(templates, targets, Kinds::ConfigMap, t, i) != Set::<Seq<char>>::empty()
            ==> !fcm[t].annotations.contains_key(watched_by_key_spec()),
        s_written_names(templates, targets, Kinds::ConfigMap, t, i) == Set::<Seq<char>>::empty()
            ==> (fcm[t].annotations.contains_key(watched_by_key_spec()) == cm[
            t
        ].annotations.contains_key(watched_by_key_spec()) && (cm[t].annotations.contains_key(
            watched_by_key_spec(),
        ) ==> fcm[t].annotations[watched_by_key_spec()] == cm[t].annotations[watched_by_key_spec()])),
    decreases templates.len() - i,
{
    if i < 0 || i >= templates.len() {
        assert(fcm =~= cm);
        assert(fcm[t].data.dom() =~= cm[t].data.dom() - Set::<Seq<char>>::empty());
    } else {
        let step = s_cleanup_one(templates[i], targets, sec, cm);
        assert(step is Ok);
        let sec1 = step->Ok_0.0;
        let cm1 = step->Ok_0.1;
        lemma_cleanup_scoped_configmap(templates, targets, sec1, cm1, i + 1, fsec, fcm, t);
        let names1 = s_written_names(templates, targets, Kinds::ConfigMap, t, i + 1);
        let names0 = s_written_names(templates, targets, Kinds::ConfigMap, t, i);
        if s_targets_as(templates[i], targets, Kinds::ConfigMap, t) {
            assert(cm1[t].data.dom() =~= cm[t].data.dom().remove(templates[i].name@));
            assert(fcm[t].data.dom() =~= cm[t].data.dom() - names0);
            assert(cm1[t].annotations == cm[t].annotations.remove(watched_by_key_spec()));
            assert(cm1[t].annotations.remove(watched_by_key_spec()) =~= cm[t].annotations.remove(
                watched_by_key_spec(),
            ));
            if names1 =~= Set::<Seq<char>>::empty() {
                assert(names0.contains(templates[i].name@));
                assert(names0 != Set::<Seq<char>>::empty());
                assert(!cm1[t].annotations.contains_key(watched_by_key_spec()));
                assert(!fcm[t].annotations.contains_key(watched_by_key_spec()));
            }
        } else {
            assert(names0 =~= names1);
            assert(cm1.contains_key(t));
            assert(cm1[t] == cm[t]);
            assert(fcm[t].data.dom() =~= cm[t].data.dom() - names0);
        }
    }
}

/// The value that the last template writing key `k` into the byte-valued
/// target `t` leaves there.
pub open spec fn s_last_written_secret(
    templates: Seq<Templates>,
    targets: Seq<TargetWithName>,
    inputs: Map<Seq<char>, Seq<char>>,
    t: Seq<char>,
    k: Seq<char>,
    i: int,
) -> Seq<u8>
    decreases templates.len() - i,
{
    if i < 0 || i >= templates.len() {
        Seq::empty()
    } else if s_targets_as(templates[i], targets, Kinds::Secret, t) && templates[i].name@ == k
        && !s_written_names(templates, targets, Kinds::Secret, t, i + 1).contains(k) {
        <Vec<u8> as StoreValue>::of_text(spec_render(templates[i].template@, inputs)->0)
    } else {
        s_last_written_secret(templates, targets, inputs, t, k, i + 1)
    }
}

/// The value that the last template writing key `k` into the text-valued
/// target `t` leaves there.
pub open spec fn s_last_written_configmap(
    templates: Seq<Templates>,
    targets: Seq<TargetWithName>,
    inputs: Map<Seq<char>, Seq<char>>,
    t: Seq<char>,
    k: Seq<char>,
    i: int,
) -> Seq<char>
    decreases templates.len() - i,
{
    if i < 0 || i >= templates.len() {
        Seq::empty()
    } else if s_targets_as(templates[i], targets, Kinds::ConfigMap, t) && templates[i].name@ == k
        && !s_written_names(templates, targets, Kinds::ConfigMap, t, i + 1).contains(k) {
        spec_render(templates[i].template@, inputs)->0
    } else {
        s_last_written_configmap(templates, targets, inputs, t, k, i + 1)
    }
}

/// A successful build leaves, under each written key of a byte-valued
/// target, exactly the rendering of the last template that writes it —
/// whatever the target held before.
pub proof fn lemma_build_values_secret(
    templates: Seq<Templates>,
    targets: Seq<TargetWithName>,
    sec: Map<Seq<char>, ResourceView<Seq<u8>>>,
    cm: Map<Seq<char>, ResourceView<Seq<char>>>,
    inputs: Map<Seq<char>, Seq<char>>,
    cs_name: Seq<char>,
    i: int,
    fsec: Map<Seq<char>, ResourceView<Seq<u8>>>,
    fcm: Map<Seq<char>, ResourceView<Seq<char>>>,
    t: Seq<char>,
    k: Seq<char>,
)
    requires
        s_build_templates(templates, targets, sec, cm, inputs, cs_name, i) == Ok::<_, ErrView>(
            (fsec, fcm),
        ),
        sec.contains_key(t),
        s_written_names(templates, targets, Kinds::Secret, t, i).contains(k),
    ensures
        fsec.contains_key(t),
        fsec[t].data.contains_key(k),
        fsec[t].data[k] == s_last_written_secret(templates, targets, inputs, t, k, i),
    decreases templates.len() - i,
{
    lemma_build_keyset_secret(templates, targets, sec, cm, inputs, cs_name, i, fsec, fcm, t);
    let step = s_build_one(templates[i], targets, sec, cm, inputs, cs_name);
    assert(step is Ok);
    let sec1 = step->Ok_0.0;
    let cm1 = step->Ok_0.1;
    let names1 = s_written_names(templates, targets, Kinds::Secret, t, i + 1);
    if names1.contains(k) {
        assert(sec1.contains_key(t));
        lemma_build_values_secret(
            templates,
            targets,
            sec1,
            cm1,
            inputs,
            cs_name,
            i + 1,
            fsec,
            fcm,
            t,
            k,
        );
    } else {
        assert(s_targets_as(templates[i], targets, Kinds::Secret, t) && templates[i].name@ == k);
        assert(sec1[t].data[k] == <Vec<u8> as StoreValue>::of_text(
            spec_render(templates[i].template@, inputs)->0,
        ));
        lemma_build_keyset_secret(
            templates,
            targets,
            sec1,
            cm1,
            inputs,
            cs_name,
            i + 1,
            fsec,
            fcm,
            t,
        );
        assert(fsec[t].data[k] == sec1[t].data[k]);
    }
}

/// A successful build leaves, under each written key of a text-valued
/// target, exactly the rendering of the last template that writes it —
/// whatever the target held before.
pub proof fn lemma_build_values_configmap(
    templates: Seq<Templates>,
    targets: Seq<TargetWithName>,
    sec: Map<Seq<char>, ResourceView<Seq<u8>>>,
    cm: Map<Seq<char>, ResourceView<Seq<char>>>,
    inputs: Map<Seq<char>, Seq<char>>,
    cs_name: Seq<char>,
    i: int,
    fsec: Map<Seq<char>, ResourceView<Seq<u8>>>,
    fcm: Map<Seq<char>, ResourceView<Seq<char>>>,
    t: Seq<char>,
    k: Seq<char>,
)
    requires
        s_build_templates(templates, targets, sec, cm, inputs, cs_name, i) == Ok::<_, ErrView>(
            (fsec, fcm),
        ),
        cm.contains_key(t),
        s_written_names(templates, targets, Kinds::ConfigMap, t, i).contains(k),
    ensures
        fcm.contains_key(t),
        fcm[t].data.contains_key(k),
        fcm[t].data[k] == s_last_written_configmap(templates, targets, inputs, t, k, i),
    decreases templates.len() - i,
{
    lemma_build_keyset_configmap(templates, targets, sec, cm, inputs, cs_name, i, fsec, fcm, t);
    let step = s_build_one(templates[i], targets, sec, cm, inputs, cs_name);
    assert(step is Ok);
    let sec1 = step->Ok_0.0;
    let cm1 = step->Ok_0.1;
    let names1 = s_written_names(templates, targets, Kinds::ConfigMap, t, i + 1);
    if names1.contains(k) {
        assert(cm1.contains_key(t));
        lemma_build_values_configmap(
            templates,
            targets,
            sec1,
            cm1,
            inputs,
            cs_name,
            i + 1,
            fsec,
            fcm,
            t,
            k,
        );
    } else {
        assert(s_targets_as(templates[i], targets, Kinds::ConfigMap, t) && templates[i].name@
            == k);
        assert(cm1[t].data[k] == spec_render(templates[i].template@, inputs)->0);
        lemma_build_keyset_configmap(
            templates,
            targets,
            sec1,
            cm1,
            inputs,
            cs_name,
            i + 1,
            fsec,
            fcm,
            t,
        );
        assert(fcm[t].data[k] == cm1[t].data[k]);
    }
}

/// No two templates from `i` on write the same key of the same target.
pub open spec fn s_distinct_writes(templates: Seq<Templates>, i: int) -> bool {
    forall|j1: int, j2: int|
        i <= j1 < j2 < templates.len() ==> !(templates[j1].target@ == templates[j2].target@
            && templates[j1].name@ == templates[j2].name@)
}

/// Idempotence: a successful build, run again on its own output with the
/// same inputs, reproduces that output exactly — the same data maps and
/// the same ownership annotation.  (Templates that write the same key of
/// the same target twice are excluded: their intermediate states differ.)
pub proof fn lemma_build_idempotent(
    templates: Seq<Templates>,
    targets: Seq<TargetWithName>,
    sec: Map<Seq<char>, ResourceView<Seq<u8>>>,
    cm: Map<Seq<char>, ResourceView<Seq<char>>>,
    inputs: Map<Seq<char>, Seq<char>>,
    cs_name: Seq<char>,
    i: int,
    fsec: Map<Seq<char>, ResourceView<Seq<u8>>>,
    fcm: Map<Seq<char>, ResourceView<Seq<char>>>,
)
    requires
        s_distinct_writes(templates, i),
        s_build_templates(templates, targets, sec, cm, inputs, cs_name, i) == Ok::<_, ErrView>(
            (fsec, fcm),
        ),
    ensures
        s_build_templates(templates, targets, fsec, fcm, inputs, cs_name, i) == Ok::<_, ErrView>(
            (fsec, fcm),
        ),
    decreases templates.len() - i,
{
    if i < 0 || i >= templates.len() {
    } else {
        let step = s_build_one(templates[i], targets, sec, cm, inputs, cs_name);
        assert(step is Ok);
        let sec1 = step->Ok_0.0;
        let cm1 = step->Ok_0.1;
        lemma_build_idempotent(
            templates,
            targets,
            sec1,
            cm1,
            inputs,
            cs_name,
            i + 1,
            fsec,
            fcm,
        );
        let tpl = templates[i];
        let val = spec_render(tpl.template@, inputs)->0;
        let t = tpl.target@;
        let decl = s_find_target(targets, t, 0)->0;
        match decl.target.kind {
            Kinds::Secret => {
                assert(s_targets_as(tpl, targets, Kinds::Secret, t));
                assert(sec1 == sec.insert(
                    t,
                    ResourceView {
                        data: sec[t].data.insert(tpl.name@, <Vec<u8> as StoreValue>::of_text(val)),
                        annotations: sec[t].annotations.insert(watched_by_key_spec(), cs_name),
                        ..sec[t]
                    },
                ));
                lemma_build_keyset_secret(
                    templates,
                    targets,
                    sec1,
                    cm1,
                    inputs,
                    cs_name,
                    i + 1,
                    fsec,
                    fcm,
                    t,
                );
                let names1 = s_written_names(templates, targets, Kinds::Secret, t, i + 1);
                assert(!names1.contains(tpl.name@)) by {
                    lemma_written_names_are_writes(templates, targets, Kinds::Secret, t, i + 1);
                }
                assert(fsec[t].data.contains_key(tpl.name@) && fsec[t].data[tpl.name@] == <Vec<
                    u8,
                > as StoreValue>::of_text(val));
                assert(fsec[t].annotations.contains_key(watched_by_key_spec()) && fsec[
                    t
                ].annotations[watched_by_key_spec()] == cs_name) by {
                    if names1 == Set::<Seq<char>>::empty() {
                        assert(sec1[t].annotations.contains_key(watched_by_key_spec()));
                    }
                }
                let r1 = ResourceView {
                    data: fsec[t].data.insert(tpl.name@, <Vec<u8> as StoreValue>::of_text(val)),
                    annotations: fsec[t].annotations.insert(watched_by_key_spec(), cs_name),
                    ..fsec[t]
                };
                assert(r1.data =~= fsec[t].data);
                assert(r1.annotations =~= fsec[t].annotations);
                assert(r1 =~= fsec[t]);
                assert(fsec.insert(t, r1) =~= fsec);
                assert(s_build_one(tpl, targets, fsec, fcm, inputs, cs_name) == Ok::<_, ErrView>(
                    (fsec.insert(t, r1), fcm),
                ));
            },
            Kinds::ConfigMap => {
                assert(s_targets_as(tpl, targets, Kinds::ConfigMap, t));
                assert(cm1 == cm.insert(
                    t,
                    ResourceView {
                        data: cm[t].data.insert(tpl.name@, val),
                        annotations: cm[t].annotations.insert(watched_by_key_spec(), cs_name),
                        ..cm[t]
                    },
                ));
                lemma_build_keyset_configmap(
                    templates,
                    targets,
                    sec1,
                    cm1,
                    inputs,
                    cs_name,
                    i + 1,
                    fsec,
                    fcm,
                    t,
                );
                let names1 = s_written_names(templates, targets, Kinds::ConfigMap, t, i + 1);
                assert(!names1.contains(tpl.name@)) by {
                    lemma_written_names_are_writes(templates, targets, Kinds::ConfigMap, t, i + 1);
                }
                assert(fcm[t].data.contains_key(tpl.name@) && fcm[t].data[tpl.name@] == val);
                assert(fcm[t].annotations.contains_key(watched_by_key_spec()) && fcm[t].annotations[
                    watched_by_key_spec()
                ] == cs_name) by {
                    if names1 == Set::<Seq<char>>::empty() {
                        assert(cm1[t].annotations.contains_key(watched_by_key_spec()));
                    }
                }
                let r1 = ResourceView {
                    data: fcm[t].data.insert(tpl.name@, val),
                    annotations: fcm[t].annotations.insert(watched_by_key_spec(), cs_name),
                    ..fcm[t]
                };
                assert(r1.data =~= fcm[t].data);
                assert(r1.annotations =~= fcm[t].annotations);
                assert(r1 =~= fcm[t]);
                assert(fcm.insert(t, r1) =~= fcm);
                assert(s_build_one(tpl, targets, fsec, fcm, inputs, cs_name) == Ok::<_, ErrView>(
                    (fsec, fcm.insert(t, r1)),
                ));
            },
        }
    }
}

/// Every name in the written-name set is the name of some template from
/// `i` on that writes into the target.
pub proof fn lemma_written_names_are_writes(
    templates: Seq<Templates>,
    targets: Seq<TargetWithName>,
    kind: Kinds,
    t: Seq<char>,
    i: int,
)
    ensures
        forall|k: Seq<char>|
            s_written_names(templates, targets, kind, t, i).contains(k) ==> exists|j: int|
                i <= j < templates.len() && #[trigger] templates[j].target@ == t && templates[
                    j
                ].name@ == k,
    decreases templates.len() - i,
{
    if i < 0 || i >= templates.len() {
    } else {
        lemma_written_names_are_writes(templates, targets, kind, t, i + 1);
        assert forall|k: Seq<char>|
            s_written_names(templates, targets, kind, t, i).contains(k) implies exists|j: int|
            i <= j < templates.len() && #[trigger] templates[j].target@ == t && templates[j].name@
                == k by {
            if s_targets_as(templates[i], targets, kind, t) && templates[i].name@ == k {
                assert(templates[i as int].target@ == t && templates[i as int].name@ == k);
            } else {
                assert(s_written_names(templates, targets, kind, t, i + 1).contains(k));
                let j = choose|j: int|
                    i + 1 <= j < templates.len() && #[trigger] templates[j].target@ == t
                        && templates[j].name@ == k;
                assert(templates[j].target@ == t && templates[j].name@ == k);
            }
        }
    }
}

/// Cleanup-then-reapply, byte-valued targets: running cleanup and then a
/// fresh build (with unchanged inputs) leaves each target exactly as a
/// build alone would have: the same data map and the same annotations.
pub proof fn lemma_cleanup_then_build_secret(
    templates: Seq<Templates>,
    targets: Seq<TargetWithName>,
    sec: Map<Seq<char>, ResourceView<Seq<u8>>>,
    cm: Map<Seq<char>, ResourceView<Seq<char>>>,
    inputs: Map<Seq<char>, Seq<char>>,
    cs_name: Seq<char>,
    csec: Map<Seq<char>, ResourceView<Seq<u8>>>,
    ccm: Map<Seq<char>, ResourceView<Seq<char>>>,
    bsec: Map<Seq<char>, ResourceView<Seq<u8>>>,
    bcm: Map<Seq<char>, ResourceView<Seq<char>>>,
    fsec: Map<Seq<char>, ResourceView<Seq<u8>>>,
    fcm: Map<Seq<char>, ResourceView<Seq<char>>>,
    t: Seq<char>,
)
    requires
        s_cleanup_templates(templates, targets, sec, cm, 0) == Ok::<_, ErrView>((csec, ccm)),
        s_build_templates(templates, targets, csec, ccm, inputs, cs_name, 0) == Ok::<_, ErrView>(
            (bsec, bcm),
        ),
        s_build_templates(templates, targets, sec, cm, inputs, cs_name, 0) == Ok::<_, ErrView>(
            (fsec, fcm),
        ),
        sec.contains_key(t),
    ensures
        bsec.contains_key(t),
        fsec.contains_key(t),
        bsec[t].data =~= fsec[t].data,
        bsec[t].annotations =~= fsec[t].annotations,
        bsec[t].name == fsec[t].name,
        bsec[t].namespace == fsec[t].namespace,
        bsec[t].owners == fsec[t].owners,
{
    let w = watched_by_key_spec();
    let names = s_written_names(templates, targets, Kinds::Secret, t, 0);
    lemma_cleanup_scoped_secret(templates, targets, sec, cm, 0, csec, ccm, t);
    lemma_build_keyset_secret(templates, targets, csec, ccm, inputs, cs_name, 0, bsec, bcm, t);
    lemma_build_keyset_secret(templates, targets, sec, cm, inputs, cs_name, 0, fsec, fcm, t);
    assert(bsec[t].data.dom() =~= fsec[t].data.dom());
    assert forall|k: Seq<char>| bsec[t].data.dom().contains(k) implies bsec[t].data[k] == fsec[
        t
    ].data[k] by {
        if names.contains(k) {
            lemma_build_values_secret(
                templates,
                targets,
                csec,
                ccm,
                inputs,
                cs_name,
                0,
                bsec,
                bcm,
                t,
                k,
            );
            lemma_build_values_secret(
                templates,
                targets,
                sec,
                cm,
                inputs,
                cs_name,
                0,
                fsec,
                fcm,
                t,
                k,
            );
        } else {
            assert(bsec[t].data[k] == csec[t].data[k]);
            assert(csec[t].data[k] == sec[t].data[k]);
            assert(fsec[t].data[k] == sec[t].data[k]);
        }
    }
    assert(bsec[t].data =~= fsec[t].data);
    assert(bsec[t].annotations.remove(w) =~= fsec[t].annotations.remove(w));
    if names == Set::<Seq<char>>::empty() {
        assert(bsec[t].annotations.contains_key(w) == csec[t].annotations.contains_key(w));
        assert(csec[t].annotations.contains_key(w) == sec[t].annotations.contains_key(w));
        assert(fsec[t].annotations.contains_key(w) == sec[t].annotations.contains_key(w));
        if sec[t].annotations.contains_key(w) {
            assert(bsec[t].annotations[w] == csec[t].annotations[w]);
            assert(csec[t].annotations[w] == sec[t].annotations[w]);
            assert(fsec[t].annotations[w] == sec[t].annotations[w]);
            assert(bsec[t].annotations =~= bsec[t].annotations.remove(w).insert(
                w,
                sec[t].annotations[w],
            ));
            assert(fsec[t].annotations =~= fsec[t].annotations.remove(w).insert(
                w,
                sec[t].annotations[w],
            ));
        } else {
            assert(bsec[t].annotations =~= bsec[t].annotations.remove(w));
            assert(fsec[t].annotations =~= fsec[t].annotations.remove(w));
        }
        assert(bsec[t].annotations =~= fsec[t].annotations);
    } else {
        assert(bsec[t].annotations.contains_key(w) && bsec[t].annotations[w] == cs_name);
        assert(fsec[t].annotations.contains_key(w) && fsec[t].annotations[w] == cs_name);
        assert(bsec[t].annotations =~= bsec[t].annotations.remove(w).insert(w, cs_name));
        assert(fsec[t].annotations =~= fsec[t].annotations.remove(w).insert(w, cs_name));
        assert(bsec[t].annotations =~= fsec[t].annotations);
    }
}

/// Cleanup-then-reapply, text-valued targets: the mirror of
/// [`lemma_cleanup_then_build_secret`] for the other backing kind.
pub proof fn lemma_cleanup_then_build_configmap(
    templates: Seq<Templates>,
    targets: Seq<TargetWithName>,
    sec: Map<Seq<char>, ResourceView<Seq<u8>>>,
    cm: Map<Seq<char>, ResourceView<Seq<char>>>,
    inputs: Map<Seq<char>, Seq<char>>,
    cs_name: Seq<char>,
    csec: Map<Seq<char>, ResourceView<Seq<u8>>>,
    ccm: Map<Seq<char>, ResourceView<Seq<char>>>,
    bsec: Map<Seq<char>, ResourceView<Seq<u8>>>,
    bcm: Map<Seq<char>, ResourceView<Seq<char>>>,
    fsec: Map<Seq<char>, ResourceView<Seq<u8>>>,
    fcm: Map<Seq<char>, ResourceView<Seq<char>>>,
    t: Seq<char>,
)
    requires
        s_cleanup_templates(templates, targets, sec, cm, 0) == Ok::<_, ErrView>((csec, ccm)),
        s_build_templates(templates, targets, csec, ccm, inputs, cs_name, 0) == Ok::<_, ErrView>(
            (bsec, bcm),
        ),
        s_build_templates(templates, targets, sec, cm, inputs, cs_name, 0) == Ok::<_, ErrView>(
            (fsec, fcm),
        ),
        cm.contains_key(t),
    ensures
        bcm.contains_key(t),
        fcm.contains_key(t),
        bcm[t].data =~= fcm[t].data,
        bcm[t].annotations =~= fcm[t].annotations,
        bcm[t].name == fcm[t].name,
        bcm[t].namespace == fcm[t].namespace,
        bcm[t].owners == fcm[t].owners,
{
    let w = watched_by_key_spec();
    let names = s_written_names(templates, targets, Kinds::ConfigMap, t, 0);
    lemma_cleanup_scoped_configmap(templates, targets, sec, cm, 0, csec, ccm, t);
    lemma_build_keyset_configmap(templates, targets, csec, ccm, inputs, cs_name, 0, bsec, bcm, t);
    lemma_build_keyset_configmap(templates, targets, sec, cm, inputs, cs_name, 0, fsec, fcm, t);
    assert(bcm[t].data.dom() =~= fcm[t].data.dom());
    assert forall|k: Seq<char>| bcm[t].data.dom().contains(k) implies bcm[t].data[k] == fcm[
        t
    ].data[k] by {
        if names.contains(k) {
            lemma_build_values_configmap(
                templates,
                targets,
                csec,
                ccm,
                inputs,
                cs_name,
                0,
                bsec,
                bcm,
                t,
                k,
            );
            lemma_build_values_configmap(
                templates,
                targets,
                sec,
                cm,
                inputs,
                cs_name,
                0,
                fsec,
                fcm,
                t,
                k,
            );
        } else {
            assert(bcm[t].data[k] == ccm[t].data[k]);
            assert(ccm[t].data[k] == cm[t].data[k]);
            assert(fcm[t].data[k] == cm[t].data[k]);
        }
    }
    assert(bcm[t].data =~= fcm[t].data);
    assert(bcm[t].annotations.remove(w) =~= fcm[t].annotations.remove(w));
    if names == Set::<Seq<char>>::empty() {
        assert(bcm[t].annotations.contains_key(w) == ccm[t].annotations.contains_key(w));
        assert(ccm[t].annotations.contains_key(w) == cm[t].annotations.contains_key(w));
        assert(fcm[t].annotations.contains_key(w) == cm[t].annotations.contains_key(w));
        if cm[t].annotations.contains_key(w) {
            assert(bcm[t].annotations[w] == ccm[t].annotations[w]);
            assert(ccm[t].annotations[w] == cm[t].annotations[w]);
            assert(fcm[t].annotations[w] == cm[t].annotations[w]);
            assert(bcm[t].annotations =~= bcm[t].annotations.remove(w).insert(
                w,
                cm[t].annotations[w],
            ));
            assert(fcm[t].annotations =~= fcm[t].annotations.remove(w).insert(
                w,
                cm[t].annotations[w],
            ));
        } else {
            assert(bcm[t].annotations =~= bcm[t].annotations.remove(w));
            assert(fcm[t].annotations =~= fcm[t].annotations.remove(w));
        }
        assert(bcm[t].annotations =~= fcm[t].annotations);
    } else {
        assert(bcm[t].annotations.contains_key(w) && bcm[t].annotations[w] == cs_name);
        assert(fcm[t].annotations.contains_key(w) && fcm[t].annotations[w] == cs_name);
        assert(bcm[t].annotations =~= bcm[t].annotations.remove(w).insert(w, cs_name));
        assert(fcm[t].annotations =~= fcm[t].annotations.remove(w).insert(w, cs_name));
        assert(bcm[t].annotations =~= fcm[t].annotations);
    }
}

/// The logical names of the declared targets of one kind, from `i` on.
pub open spec fn s_target_names(targets: Seq<TargetWithName>, kind: Kinds, i: int) -> Set<
    Seq<char>,
>
    decreases targets.len() - i,
{
    if i < 0 || i >= targets.len() {
        Set::empty()
    } else {
        let rest = s_target_names(targets, kind, i + 1);
        if targets[i].target.kind == kind {
            rest.insert(targets[i].name@)
        } else {
            rest
        }
    }
}

/// Gathering targets binds exactly the declared logical names, whatever
/// the snapshot holds.
pub proof fn lemma_gather_targets_dom(
    targets: Seq<TargetWithName>,
    st: StoreView,
    ns: Seq<char>,
    ow: Seq<crate::resource::OwnerRefView>,
    i: int,
    acc: TargetsView,
)
    ensures
        s_gather_targets(targets, st, ns, ow, i, acc).secrets.dom() =~= acc.secrets.dom()
            + s_target_names(targets, Kinds::Secret, i),
        s_gather_targets(targets, st, ns, ow, i, acc).configmaps.dom() =~= acc.configmaps.dom()
            + s_target_names(targets, Kinds::ConfigMap, i),
    decreases targets.len() - i,
{
    if i < 0 || i >= targets.len() {
        assert(s_gather_targets(targets, st, ns, ow, i, acc).secrets.dom() =~= acc.secrets.dom()
            + Set::<Seq<char>>::empty());
        assert(s_gather_targets(targets, st, ns, ow, i, acc).configmaps.dom()
            =~= acc.configmaps.dom() + Set::<Seq<char>>::empty());
    } else {
        let acc1 = s_gather_step(targets[i], st, ns, ow, acc);
        lemma_gather_targets_dom(targets, st, ns, ow, i + 1, acc1);
    }
}

/// When the snapshot already holds the backing resource of every
/// declared target, gathering creates nothing and binds each logical
/// name to the resource under its backing name.
pub proof fn lemma_gather_targets_found(
    targets: Seq<TargetWithName>,
    st: StoreView,
    ns: Seq<char>,
    ow: Seq<crate::resource::OwnerRefView>,
    i: int,
    acc: TargetsView,
)
    requires
        0 <= i,
        forall|j1: int, j2: int|
            0 <= j1 < j2 < targets.len() ==> targets[j1].name@ != targets[j2].name@,
        forall|j: int|
            i <= j < targets.len() ==> (match targets[j].target.kind {
                Kinds::Secret => st.secrets.contains_key(#[trigger] targets[j].target.name@),
                Kinds::ConfigMap => st.configmaps.contains_key(targets[j].target.name@),
            }),
    ensures
        s_gather_targets(targets, st, ns, ow, i, acc).created_secrets == acc.created_secrets,
        s_gather_targets(targets, st, ns, ow, i, acc).created_configmaps == acc.created_configmaps,
        forall|j: int|
            i <= j < targets.len() && targets[j].target.kind == Kinds::Secret
                ==> s_gather_targets(targets, st, ns, ow, i, acc).secrets.contains_key(
                #[trigger] targets[j].name@,
            ) && s_gather_targets(targets, st, ns, ow, i, acc).secrets[targets[j].name@]
                == st.secrets[targets[j].target.name@],
        forall|j: int|
            i <= j < targets.len() && targets[j].target.kind == Kinds::ConfigMap
                ==> s_gather_targets(targets, st, ns, ow, i, acc).configmaps.contains_key(
                #[trigger] targets[j].name@,
            ) && s_gather_targets(targets, st, ns, ow, i, acc).configmaps[targets[j].name@]
                == st.configmaps[targets[j].target.name@],
    decreases targets.len() - i,
{
    if i < 0 || i >= targets.len() {
    } else {
        let acc1 = s_gather_step(targets[i], st, ns, ow, acc);
        lemma_gather_targets_found(targets, st, ns, ow, i + 1, acc1);
        let r = s_gather_targets(targets, st, ns, ow, i, acc);
        assert(r == s_gather_targets(targets, st, ns, ow, i + 1, acc1));
        match targets[i].target.kind {
            Kinds::Secret => {
                assert(acc1.secrets == acc.secrets.insert(
                    targets[i].name@,
                    st.secrets[targets[i].target.name@],
                ));
            },
            Kinds::ConfigMap => {
                assert(acc1.configmaps == acc.configmaps.insert(
                    targets[i].name@,
                    st.configmaps[targets[i].target.name@],
                ));
            },
        }
        assert forall|j: int|
            i <= j < targets.len() && targets[j].target.kind
                == Kinds::Secret implies r.secrets.contains_key(
            #[trigger] targets[j].name@,
        ) && r.secrets[targets[j].name@] == st.secrets[targets[j].target.name@] by {
            if j == i {
                lemma_gather_kept(targets, st, ns, ow, i + 1, acc1, targets[i].name@);
            } else {
                assert(s_gather_targets(targets, st, ns, ow, i + 1, acc1).secrets.contains_key(
                    targets[j].name@,
                ));
            }
        }
        assert forall|j: int|
            i <= j < targets.len() && targets[j].target.kind
                == Kinds::ConfigMap implies r.configmaps.contains_key(
            #[trigger] targets[j].name@,
        ) && r.configmaps[targets[j].name@] == st.configmaps[targets[j].target.name@] by {
            if j == i {
                lemma_gather_kept(targets, st, ns, ow, i + 1, acc1, targets[i].name@);
            } else {
                assert(s_gather_targets(targets, st, ns, ow, i + 1, acc1).configmaps.contains_key(
                    targets[j].name@,
                ));
            }
        }
    }
}

/// A logical name bound in the accumulator and declared by no later
/// target keeps its binding through the rest of the gathering.
pub proof fn lemma_gather_kept(
    targets: Seq<TargetWithName>,
    st: StoreView,
    ns: Seq<char>,
    ow: Seq<crate::resource::OwnerRefView>,
    i: int,
    acc: TargetsView,
    name: Seq<char>,
)
    requires
        forall|j: int| i <= j < targets.len() ==> #[trigger] targets[j].name@ != name,
    ensures
        s_gather_targets(targets, st, ns, ow, i, acc).secrets.contains_key(name)
            == acc.secrets.contains_key(name),
        acc.secrets.contains_key(name) ==> s_gather_targets(targets, st, ns, ow, i, acc).secrets[
            name
        ] == acc.secrets[name],
        s_gather_targets(targets, st, ns, ow, i, acc).configmaps.contains_key(name)
            == acc.configmaps.contains_key(name),
        acc.configmaps.contains_key(name) ==> s_gather_targets(
            targets,
            st,
            ns,
            ow,
            i,
            acc,
        ).configmaps[name] == acc.configmaps[name],
    decreases targets.len() - i,
{
    if i < 0 || i >= targets.len() {
    } else {
        let acc1 = s_gather_step(targets[i], st, ns, ow, acc);
        lemma_gather_kept(targets, st, ns, ow, i + 1, acc1, name);
    }
}

/// A successful build binds exactly the logical names that gathering
/// bound: no target appears or disappears.
pub proof fn lemma_build_preserves_dom(
    templates: Seq<Templates>,
    targets: Seq<TargetWithName>,
    sec: Map<Seq<char>, ResourceView<Seq<u8>>>,
    cm: Map<Seq<char>, ResourceView<Seq<char>>>,
    inputs: Map<Seq<char>, Seq<char>>,
    cs_name: Seq<char>,
    i: int,
    fsec: Map<Seq<char>, ResourceView<Seq<u8>>>,
    fcm: Map<Seq<char>, ResourceView<Seq<char>>>,
)
    requires
        s_build_templates(templates, targets, sec, cm, inputs, cs_name, i) == Ok::<_, ErrView>(
            (fsec, fcm),
        ),
    ensures
        fsec.dom() =~= sec.dom(),
        fcm.dom() =~= cm.dom(),
    decreases templates.len() - i,
{
    if i < 0 || i >= templates.len() {
    } else {
        let step = s_build_one(templates[i], targets, sec, cm, inputs, cs_name);
        assert(step is Ok);
        lemma_build_preserves_dom(
            templates,
            targets,
            step->Ok_0.0,
            step->Ok_0.1,
            inputs,
            cs_name,
            i + 1,
            fsec,
            fcm,
        );
    }
}

/// Idempotence of the whole apply pass: once the writes of a successful
/// pass are in the store, a second pass with unchanged input source
/// values creates nothing and plans byte-identical target contents.
/// Declared logical target names must be distinct (the engine's
/// behaviour is undefined otherwise) and no two templates may write the
/// same key of the same target.
pub proof fn lemma_apply_idempotent(cs: ConfigSet, st: StoreView, st1: StoreView, p: PlanView)
    requires
        s_apply(cs, st) == Ok::<_, ErrView>(p),
        s_gather_inputs(cs.spec.inputs@, st1, 0, Map::empty()) == s_gather_inputs(
            cs.spec.inputs@,
            st,
            0,
            Map::empty(),
        ),
        forall|j1: int, j2: int|
            0 <= j1 < j2 < cs.spec.targets@.len() ==> cs.spec.targets@[j1].name@
                != cs.spec.targets@[j2].name@,
        s_distinct_writes(cs.spec.templates@, 0),
        forall|j: int|
            0 <= j < cs.spec.targets@.len() ==> (match cs.spec.targets@[j].target.kind {
                Kinds::Secret => st1.secrets.contains_key(
                    #[trigger] cs.spec.targets@[j].target.name@,
                ) && st1.secrets[cs.spec.targets@[j].target.name@] == p.secrets[cs.spec.targets@[
                    j
                ].name@],
                Kinds::ConfigMap => st1.configmaps.contains_key(cs.spec.targets@[j].target.name@)
                    && st1.configmaps[cs.spec.targets@[j].target.name@] == p.configmaps[
                    cs.spec.targets@[j].name@],
            }),
    ensures
        s_apply(cs, st1) == Ok::<_, ErrView>(
            (PlanView {
                created_secrets: Seq::empty(),
                created_configmaps: Seq::empty(),
                secrets: p.secrets,
                configmaps: p.configmaps,
            }),
        ),
{
    let targets = cs.spec.targets@;
    let templates = cs.spec.templates@;
    let inputs = s_gather_inputs(cs.spec.inputs@, st, 0, Map::empty())->Ok_0;
    let ow = s_owner_refs(cs);
    let ns = cs.namespace@;
    let tv = s_gather_targets(targets, st, ns, ow, 0, s_empty_targets());
    let tv1 = s_gather_targets(targets, st1, ns, ow, 0, s_empty_targets());
    assert(s_build_templates(templates, targets, tv.secrets, tv.configmaps, inputs, cs.name@, 0)
        == Ok::<_, ErrView>((p.secrets, p.configmaps)));

    lemma_gather_targets_found(targets, st1, ns, ow, 0, s_empty_targets());
    assert(tv1.created_secrets =~= Seq::<ResourceView<Seq<u8>>>::empty());
    assert(tv1.created_configmaps =~= Seq::<ResourceView<Seq<char>>>::empty());
    lemma_gather_targets_dom(targets, st1, ns, ow, 0, s_empty_targets());
    lemma_gather_targets_dom(targets, st, ns, ow, 0, s_empty_targets());
    lemma_build_preserves_dom(
        templates,
        targets,
        tv.secrets,
        tv.configmaps,
        inputs,
        cs.name@,
        0,
        p.secrets,
        p.configmaps,
    );
    assert(tv1.secrets.dom() =~= p.secrets.dom());
    assert(tv1.configmaps.dom() =~= p.configmaps.dom());
    assert forall|k: Seq<char>| tv1.secrets.dom().contains(k) implies tv1.secrets[k] == p.secrets[
        k
    ] by {
        lemma_target_names_are_targets(targets, Kinds::Secret, 0);
        let j = choose|j: int|
            0 <= j < targets.len() && #[trigger] targets[j].name@ == k && targets[j].target.kind
                == Kinds::Secret;
        assert(tv1.secrets[targets[j].name@] == st1.secrets[targets[j].target.name@]);
    }
    assert(tv1.secrets =~= p.secrets);
    assert forall|k: Seq<char>|
        tv1.configmaps.dom().contains(k) implies tv1.configmaps[k] == p.configmaps[k] by {
        lemma_target_names_are_targets(targets, Kinds::ConfigMap, 0);
        let j = choose|j: int|
            0 <= j < targets.len() && #[trigger] targets[j].name@ == k && targets[j].target.kind
                == Kinds::ConfigMap;
        assert(tv1.configmaps[targets[j].name@] == st1.configmaps[targets[j].target.name@]);
    }
    assert(tv1.configmaps =~= p.configmaps);

    lemma_build_idempotent(
        templates,
        targets,
        tv.secrets,
        tv.configmaps,
        inputs,
        cs.name@,
        0,
        p.secrets,
        p.configmaps,
    );
    assert(s_build_templates(templates, targets, tv1.secrets, tv1.configmaps, inputs, cs.name@, 0)
        == Ok::<_, ErrView>((p.secrets, p.configmaps)));
}

/// Every logical name in the declared-name set belongs to some declared
/// target of that kind.
pub proof fn lemma_target_names_are_targets(
    targets: Seq<TargetWithName>,
    kind: Kinds,
    i: int,
)
    ensures
        forall|k: Seq<char>|
            s_target_names(targets, kind, i).contains(k) ==> exists|j: int|
                i <= j < targets.len() && #[trigger] targets[j].name@ == k && targets[
                    j
                ].target.kind == kind,
    decreases targets.len() - i,
{
    if i < 0 || i >= targets.len() {
    } else {
        lemma_target_names_are_targets(targets, kind, i + 1);
        assert forall|k: Seq<char>|
            s_target_names(targets, kind, i).contains(k) implies exists|j: int|
            i <= j < targets.len() && #[trigger] targets[j].name@ == k && targets[j].target.kind
                == kind by {
            if targets[i].target.kind == kind && targets[i].name@ == k {
                assert(targets[i as int].name@ == k && targets[i as int].target.kind == kind);
            } else {
                assert(s_target_names(targets, kind, i + 1).contains(k));
                let j = choose|j: int|
                    i + 1 <= j < targets.len() && #[trigger] targets[j].name@ == k && targets[
                        j
                    ].target.kind == kind;
                assert(targets[j].name@ == k && targets[j].target.kind == kind);
            }
        }
    }
}

} // verus!
