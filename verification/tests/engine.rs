use shoebill::api::{
    ConfigSet, ConfigSetSpec, Input, InputWithName, Kinds, Target, TargetWithName, Templates,
};
use shoebill::engine::{
    add_finalizer, finalizer_event, has_finalizer, reconcile_apply, reconcile_cleanup,
    remove_finalizer, FinalizerEvent, ReconcilePlan,
};
use shoebill::errors::EngineError;
use shoebill::kvmap::KvMap;
use shoebill::policy::{error_policy, ReconcileAction, RETRY_DELAY_SECS};
use shoebill::resource::{KvResource, StoreState};

const WATCHED_BY: &str = "badhouseplants.net/watched-by-shu";
const FINALIZER: &str = "badhouseplants.net/shu-cleanup";

fn secret_resource(name: &str, ns: &str, data: &[(&str, &[u8])]) -> KvResource<Vec<u8>> {
    let mut m: KvMap<Vec<u8>> = KvMap::new();
    for (k, v) in data {
        m.insert(k.to_string(), v.to_vec());
    }
    KvResource {
        name: name.to_string(),
        namespace: ns.to_string(),
        data: m,
        annotations: KvMap::new(),
        owners: Vec::new(),
    }
}

fn configmap_resource(name: &str, ns: &str, data: &[(&str, &str)]) -> KvResource<String> {
    let mut m: KvMap<String> = KvMap::new();
    for (k, v) in data {
        m.insert(k.to_string(), v.to_string());
    }
    KvResource {
        name: name.to_string(),
        namespace: ns.to_string(),
        data: m,
        annotations: KvMap::new(),
        owners: Vec::new(),
    }
}

/// The ConfigSet of the reference scenario: input `pw` from Secret
/// `db-secret` key `password`; target `creds` = Secret `db-creds`;
/// template `DB_PASSWORD` into `creds`.  A secret-sourced value is keyed
/// by its source key (the resolver's asymmetry), so the template
/// references `{{password}}`.
fn app_config() -> ConfigSet {
    ConfigSet {
        name: "app-config".to_string(),
        namespace: "prod".to_string(),
        uid: "uid-1234".to_string(),
        deletion_requested: false,
        finalizers: vec![FINALIZER.to_string()],
        spec: ConfigSetSpec {
            targets: vec![TargetWithName {
                name: "creds".to_string(),
                target: Target { kind: Kinds::Secret, name: "db-creds".to_string() },
            }],
            inputs: vec![InputWithName {
                name: "pw".to_string(),
                from: Input {
                    kind: Kinds::Secret,
                    name: "db-secret".to_string(),
                    key: "password".to_string(),
                },
            }],
            templates: vec![Templates {
                name: "DB_PASSWORD".to_string(),
                template: "{{password}}".to_string(),
                target: "creds".to_string(),
            }],
        },
        status: None,
    }
}

fn prod_store() -> StoreState {
    let mut store = StoreState::new();
    // base64-decoded "czNjcjN0" is the byte string "s3cr3t"
    store.secrets.insert(
        "db-secret".to_string(),
        secret_resource("db-secret", "prod", &[("password", b"s3cr3t")]),
    );
    store
}

/// Writes a plan back into the snapshot, as the embedding program would:
/// each created resource first, then each replaced one, keyed by its
/// backing name.
fn commit(store: &mut StoreState, plan: &ReconcilePlan) {
    for e in &plan.created_secrets {
        store.secrets.insert(e.name.clone(), secret_resource(&e.name, &e.namespace, &[]));
    }
    for e in &plan.created_configmaps {
        store
            .configmaps
            .insert(e.name.clone(), configmap_resource(&e.name, &e.namespace, &[]));
    }
    for e in &plan.secrets.entries {
        let mut data: KvMap<Vec<u8>> = KvMap::new();
        for d in &e.value.data.entries {
            data.insert(d.key.clone(), d.value.clone());
        }
        let mut annotations: KvMap<String> = KvMap::new();
        for a in &e.value.annotations.entries {
            annotations.insert(a.key.clone(), a.value.clone());
        }
        store.secrets.insert(
            e.value.name.clone(),
            KvResource {
                name: e.value.name.clone(),
                namespace: e.value.namespace.clone(),
                data,
                annotations,
                owners: Vec::new(),
            },
        );
    }
    for e in &plan.configmaps.entries {
        let mut data: KvMap<String> = KvMap::new();
        for d in &e.value.data.entries {
            data.insert(d.key.clone(), d.value.clone());
        }
        let mut annotations: KvMap<String> = KvMap::new();
        for a in &e.value.annotations.entries {
            annotations.insert(a.key.clone(), a.value.clone());
        }
        store.configmaps.insert(
            e.value.name.clone(),
            KvResource {
                name: e.value.name.clone(),
                namespace: e.value.namespace.clone(),
                data,
                annotations,
                owners: Vec::new(),
            },
        );
    }
}

#[test]
fn literal_scenario_apply() {
    let cs = app_config();
    let store = prod_store();
    let plan = reconcile_apply(&cs, &store).expect("apply should succeed");

    // db-creds did not exist: it is created empty, owned by app-config
    assert_eq!(plan.created_secrets.len(), 1);
    let created = &plan.created_secrets[0];
    assert_eq!(created.name, "db-creds");
    assert_eq!(created.namespace, "prod");
    assert_eq!(created.owners.len(), 1);
    assert_eq!(created.owners[0].name, "app-config");
    assert_eq!(created.owners[0].uid, "uid-1234");
    assert_eq!(created.owners[0].kind, "ConfigSet");
    assert_eq!(created.owners[0].api_version, "shoebill.badhouseplants.net/v1alpha1");
    assert!(plan.created_configmaps.is_empty());

    // the replaced target holds DB_PASSWORD = "s3cr3t" as bytes, and the
    // ownership annotation
    let creds = plan.secrets.get(&"creds".to_string()).expect("target gathered");
    assert_eq!(creds.name, "db-creds");
    assert_eq!(
        creds.data.get(&"DB_PASSWORD".to_string()),
        Some(&b"s3cr3t".to_vec()),
    );
    assert_eq!(
        creds.annotations.get(&WATCHED_BY.to_string()),
        Some(&"app-config".to_string()),
    );
}

#[test]
fn literal_scenario_cleanup() {
    let mut cs = app_config();
    let mut store = prod_store();
    let plan = reconcile_apply(&cs, &store).expect("apply should succeed");
    commit(&mut store, &plan);

    cs.deletion_requested = true;
    assert_eq!(finalizer_event(&cs), FinalizerEvent::Cleanup);

    let plan2 = reconcile_cleanup(&cs, &store).expect("cleanup should succeed");
    let creds = plan2.secrets.get(&"creds".to_string()).expect("target gathered");
    // the key and the annotation are gone, the resource itself is only
    // replaced, never deleted
    assert_eq!(creds.name, "db-creds");
    assert_eq!(creds.data.get(&"DB_PASSWORD".to_string()), None);
    assert_eq!(creds.annotations.get(&WATCHED_BY.to_string()), None);

    // the finalizer token is then removed, permitting physical deletion
    let fins = remove_finalizer(&cs.finalizers);
    assert!(fins.is_empty());
}

#[test]
fn apply_is_idempotent() {
    let cs = app_config();
    let mut store = prod_store();
    let plan1 = reconcile_apply(&cs, &store).expect("first apply");
    commit(&mut store, &plan1);
    let plan2 = reconcile_apply(&cs, &store).expect("second apply");

    // nothing left to create, and byte-identical data and annotation
    assert!(plan2.created_secrets.is_empty());
    let r1 = plan1.secrets.get(&"creds".to_string()).unwrap();
    let r2 = plan2.secrets.get(&"creds".to_string()).unwrap();
    assert_eq!(
        r1.data.get(&"DB_PASSWORD".to_string()),
        r2.data.get(&"DB_PASSWORD".to_string()),
    );
    assert_eq!(
        r1.annotations.get(&WATCHED_BY.to_string()),
        r2.annotations.get(&WATCHED_BY.to_string()),
    );

    commit(&mut store, &plan2);
    let after = store.secrets.get(&"db-creds".to_string()).unwrap();
    assert_eq!(after.data.get(&"DB_PASSWORD".to_string()), Some(&b"s3cr3t".to_vec()));
}

#[test]
fn cleanup_then_reapply_restores_content() {
    let cs = app_config();
    let mut store = prod_store();
    let plan1 = reconcile_apply(&cs, &store).expect("first apply");
    commit(&mut store, &plan1);

    let cleanup_plan = reconcile_cleanup(&cs, &store).expect("cleanup");
    commit(&mut store, &cleanup_plan);
    let wiped = store.secrets.get(&"db-creds".to_string()).unwrap();
    assert_eq!(wiped.data.get(&"DB_PASSWORD".to_string()), None);

    let plan2 = reconcile_apply(&cs, &store).expect("reapply");
    commit(&mut store, &plan2);
    let restored = store.secrets.get(&"db-creds".to_string()).unwrap();
    assert_eq!(restored.data.get(&"DB_PASSWORD".to_string()), Some(&b"s3cr3t".to_vec()));
    assert_eq!(
        restored.annotations.get(&WATCHED_BY.to_string()),
        Some(&"app-config".to_string()),
    );
}

#[test]
fn cleanup_removes_only_owned_keys() {
    let cs = app_config();
    let mut store = prod_store();
    // the target already exists and carries a key placed by someone else
    store.secrets.insert(
        "db-creds".to_string(),
        secret_resource("db-creds", "prod", &[("UNRELATED", b"keep-me")]),
    );
    let plan = reconcile_apply(&cs, &store).expect("apply");
    // a pre-existing target is never created nor given an owner reference
    assert!(plan.created_secrets.is_empty());
    commit(&mut store, &plan);
    let both = store.secrets.get(&"db-creds".to_string()).unwrap();
    assert_eq!(both.data.get(&"UNRELATED".to_string()), Some(&b"keep-me".to_vec()));
    assert_eq!(both.data.get(&"DB_PASSWORD".to_string()), Some(&b"s3cr3t".to_vec()));

    let plan2 = reconcile_cleanup(&cs, &store).expect("cleanup");
    commit(&mut store, &plan2);
    let after = store.secrets.get(&"db-creds".to_string()).unwrap();
    assert_eq!(after.data.get(&"DB_PASSWORD".to_string()), None);
    assert_eq!(after.data.get(&"UNRELATED".to_string()), Some(&b"keep-me".to_vec()));
    assert_eq!(after.annotations.get(&WATCHED_BY.to_string()), None);
}

#[test]
fn missing_input_resource_aborts_with_not_found() {
    let cs = app_config();
    let store = StoreState::new();
    match reconcile_apply(&cs, &store) {
        Err(EngineError::NotFound { resource }) => assert_eq!(resource, "db-secret"),
        other => panic!("expected NotFound, got {:?}", other.is_ok()),
    }
}

#[test]
fn missing_input_key_aborts_with_missing_key() {
    let cs = app_config();
    let mut store = StoreState::new();
    store.secrets.insert(
        "db-secret".to_string(),
        secret_resource("db-secret", "prod", &[("other", b"x")]),
    );
    match reconcile_apply(&cs, &store) {
        Err(EngineError::MissingKey { key }) => assert_eq!(key, "password"),
        other => panic!("expected MissingKey, got {:?}", other.is_ok()),
    }
}

#[test]
fn undecodable_secret_value_aborts_with_encoding() {
    let cs = app_config();
    let mut store = StoreState::new();
    store.secrets.insert(
        "db-secret".to_string(),
        secret_resource("db-secret", "prod", &[("password", &[0xff, 0xfe, 0x80])]),
    );
    match reconcile_apply(&cs, &store) {
        Err(EngineError::Encoding { key }) => assert_eq!(key, "password"),
        other => panic!("expected Encoding, got {:?}", other.is_ok()),
    }
}

#[test]
fn unresolved_variable_aborts_with_render_error() {
    let mut cs = app_config();
    cs.spec.templates[0].template = "{{nosuchvar}}".to_string();
    let store = prod_store();
    match reconcile_apply(&cs, &store) {
        Err(EngineError::Render { template }) => assert_eq!(template, "DB_PASSWORD"),
        other => panic!("expected Render, got {:?}", other.is_ok()),
    }
}

#[test]
fn undeclared_target_aborts_with_configuration_error() {
    let mut cs = app_config();
    // a constant body, so that rendering succeeds and the target lookup
    // is what fails
    cs.spec.templates[0].template = "constant".to_string();
    cs.spec.templates[0].target = "nosuchtarget".to_string();
    let store = prod_store();
    match reconcile_apply(&cs, &store) {
        Err(EngineError::Configuration { target }) => assert_eq!(target, "nosuchtarget"),
        other => panic!("expected Configuration, got {:?}", other.is_ok()),
    }
}

#[test]
fn configmap_input_is_keyed_by_declared_name() {
    // a ConfigMap-sourced input resolves under the declared input name,
    // a Secret-sourced one under its source key: the asymmetry is kept
    let mut cs = app_config();
    cs.spec.inputs.push(InputWithName {
        name: "greeting".to_string(),
        from: Input {
            kind: Kinds::ConfigMap,
            name: "messages".to_string(),
            key: "hello".to_string(),
        },
    });
    cs.spec.templates[0].template = "{{password}}/{{greeting}}".to_string();
    let mut store = prod_store();
    store.configmaps.insert(
        "messages".to_string(),
        configmap_resource("messages", "prod", &[("hello", "hi")]),
    );
    let plan = reconcile_apply(&cs, &store).expect("apply");
    let creds = plan.secrets.get(&"creds".to_string()).unwrap();
    assert_eq!(creds.data.get(&"DB_PASSWORD".to_string()), Some(&b"s3cr3t/hi".to_vec()));
}

#[test]
fn configmap_target_receives_text() {
    let cs = ConfigSet {
        name: "cm-config".to_string(),
        namespace: "prod".to_string(),
        uid: "uid-9".to_string(),
        deletion_requested: false,
        finalizers: vec![FINALIZER.to_string()],
        spec: ConfigSetSpec {
            targets: vec![TargetWithName {
                name: "out".to_string(),
                target: Target { kind: Kinds::ConfigMap, name: "rendered".to_string() },
            }],
            inputs: vec![InputWithName {
                name: "who".to_string(),
                from: Input {
                    kind: Kinds::ConfigMap,
                    name: "names".to_string(),
                    key: "who".to_string(),
                },
            }],
            templates: vec![Templates {
                name: "MESSAGE".to_string(),
                template: "hello {{who}}".to_string(),
                target: "out".to_string(),
            }],
        },
        status: None,
    };
    let mut store = StoreState::new();
    store.configmaps.insert(
        "names".to_string(),
        configmap_resource("names", "prod", &[("who", "world")]),
    );
    let plan = reconcile_apply(&cs, &store).expect("apply");
    assert_eq!(plan.created_configmaps.len(), 1);
    let out = plan.configmaps.get(&"out".to_string()).unwrap();
    assert_eq!(out.data.get(&"MESSAGE".to_string()), Some(&"hello world".to_string()));
    assert_eq!(out.annotations.get(&WATCHED_BY.to_string()), Some(&"cm-config".to_string()));
}

#[test]
fn finalizer_state_machine() {
    let mut cs = app_config();
    assert!(has_finalizer(&cs));
    assert_eq!(finalizer_event(&cs), FinalizerEvent::Apply);

    cs.finalizers = Vec::new();
    assert!(!has_finalizer(&cs));
    assert_eq!(finalizer_event(&cs), FinalizerEvent::Register);

    cs.finalizers = add_finalizer(&cs.finalizers);
    assert_eq!(cs.finalizers, vec![FINALIZER.to_string()]);
    assert_eq!(finalizer_event(&cs), FinalizerEvent::Apply);

    cs.deletion_requested = true;
    assert_eq!(finalizer_event(&cs), FinalizerEvent::Cleanup);

    cs.finalizers = remove_finalizer(&cs.finalizers);
    assert!(cs.finalizers.is_empty());
    assert_eq!(finalizer_event(&cs), FinalizerEvent::Finished);
}

#[test]
fn remove_finalizer_keeps_other_tokens() {
    let fins = vec!["other/token".to_string(), FINALIZER.to_string(), "another".to_string()];
    let out = remove_finalizer(&fins);
    assert_eq!(out, vec!["other/token".to_string(), "another".to_string()]);
}

#[test]
fn every_failure_requeues_with_fixed_delay() {
    let errors = vec![
        EngineError::NotFound { resource: "r".to_string() },
        EngineError::MissingKey { key: "k".to_string() },
        EngineError::Encoding { key: "k".to_string() },
        EngineError::Render { template: "t".to_string() },
        EngineError::Configuration { target: "t".to_string() },
        EngineError::Store { message: "boom".to_string() },
    ];
    for e in &errors {
        assert_eq!(error_policy(e), ReconcileAction::RequeueAfterSecs(RETRY_DELAY_SECS));
        assert!(!e.describe().is_empty());
    }
    assert_eq!(RETRY_DELAY_SECS, 300);
}
