use moonscale::apply::{plan_all, tally_apply, ApplyEvent, DocDirective};
use moonscale::discovery::{ApiResourceDescriptor, DiscoveryIndex, ResourceScope};
use moonscale::models::{create_response, Config, CreateDatabaseRequestModel};
use moonscale::registry::{
    assemble_instances, delete_targets, delete_verdict, DeleteError, KindScanEvent, ListEntry,
};
use moonscale::render::{
    base64_encode, build_template_context, generate_password, render_documents, RenderError,
};

fn config() -> Config {
    Config {
        ingress_domain: "x.dev".to_string(),
        resource_ttl: 1800,
        api_key: "k".to_string(),
    }
}

fn request(name: &str, size: usize) -> CreateDatabaseRequestModel {
    CreateDatabaseRequestModel {
        name: name.to_string(),
        size,
    }
}

fn render_single_value(template: &str, req: &CreateDatabaseRequestModel, password: &str) -> serde_yaml::Value {
    let ctx = build_template_context(req, &config(), password);
    let docs = render_documents(template, &ctx).unwrap();
    assert_eq!(docs.len(), 1);
    docs.into_iter().next().unwrap().body
}

#[test]
fn storage_size_is_clamped_low() {
    let v = render_single_value("size: {{ pvc_size }}", &request("pr-1", 0), "p");
    assert_eq!(
        v.get("size").and_then(|s| s.as_str()),
        Some("1Gi")
    );
}

#[test]
fn storage_size_is_clamped_high() {
    let v = render_single_value("size: {{ pvc_size }}", &request("pr-1", 100), "p");
    assert_eq!(v.get("size").and_then(|s| s.as_str()), Some("5Gi"));
}

#[test]
fn storage_size_in_range_is_kept() {
    let v = render_single_value("size: {{ pvc_size }}", &request("pr-1", 2), "p");
    assert_eq!(v.get("size").and_then(|s| s.as_str()), Some("2Gi"));
}

#[test]
fn variables_are_bound() {
    let v = render_single_value(
        "name: {{ name }}\ndomain: {{ domain }}\nttl: {{ resource_ttl }}",
        &request("pr-9", 2),
        "p",
    );
    assert_eq!(v.get("name").and_then(|s| s.as_str()), Some("pr-9"));
    assert_eq!(v.get("domain").and_then(|s| s.as_str()), Some("x.dev"));
    assert_eq!(v.get("ttl").and_then(|s| s.as_u64()), Some(1800));
}

#[test]
fn password_is_embedded_base64_encoded() {
    let v = render_single_value(
        "password: {{ root_password }}",
        &request("pr-9", 2),
        "aaaaaaaaaaaaaaaa",
    );
    assert_eq!(
        v.get("password").and_then(|s| s.as_str()),
        Some("YWFhYWFhYWFhYWFhYWFhYQ==")
    );
}

#[test]
fn base64_encoding_is_standard_and_padded() {
    assert_eq!(base64_encode(""), "");
    assert_eq!(base64_encode("s3cret"), "czNjcmV0");
    assert_eq!(base64_encode("ab"), "YWI=");
}

#[test]
fn generated_passwords_are_alphanumeric() {
    let p = generate_password();
    assert_eq!(p.len(), 16);
    assert!(p.chars().all(|c| c.is_ascii_alphanumeric()));
}

#[test]
fn generated_passwords_differ_across_draws() {
    let p1 = generate_password();
    let p2 = generate_password();
    assert_ne!(p1, p2);
}

#[test]
fn rendering_is_deterministic_for_fixed_password() {
    let req = request("pr-9", 2);
    let template = "a: {{ name }}-{{ root_password }}";
    let v1 = render_single_value(template, &req, "fixed");
    let v2 = render_single_value(template, &req, "fixed");
    assert_eq!(v1, v2);
}

#[test]
fn rendering_differs_only_through_password() {
    let req = request("pr-9", 2);
    let with_password = render_single_value("a: {{ root_password }}", &req, "one");
    let with_other = render_single_value("a: {{ root_password }}", &req, "two");
    assert_ne!(with_password, with_other);
    let same1 = render_single_value("a: {{ name }}-{{ pvc_size }}", &req, "one");
    let same2 = render_single_value("a: {{ name }}-{{ pvc_size }}", &req, "two");
    assert_eq!(same1, same2);
}

#[test]
fn undefined_variable_is_a_template_error() {
    let ctx = build_template_context(&request("pr-9", 2), &config(), "p");
    assert!(matches!(
        render_documents("a: {{ undefined_thing }}", &ctx),
        Err(RenderError::Template)
    ));
}

#[test]
fn bad_syntax_is_a_template_error() {
    let ctx = build_template_context(&request("pr-9", 2), &config(), "p");
    assert!(matches!(
        render_documents("a: {{ name", &ctx),
        Err(RenderError::Template)
    ));
}

#[test]
fn environment_reading_template_is_refused() {
    let ctx = build_template_context(&request("pr-9", 2), &config(), "p");
    assert!(matches!(
        render_documents("a: {{ get_env(name='PATH') }}", &ctx),
        Err(RenderError::Template)
    ));
}

#[test]
fn malformed_document_is_a_parse_error() {
    let ctx = build_template_context(&request("pr-9", 2), &config(), "p");
    assert!(matches!(
        render_documents("a: {{ name }}\n---\n{ not: [ valid", &ctx),
        Err(RenderError::Parse)
    ));
}

#[test]
fn empty_template_renders_one_empty_document() {
    let ctx = build_template_context(&request("pr-9", 2), &config(), "p");
    let docs = render_documents("", &ctx).unwrap();
    assert_eq!(docs.len(), 1);
    assert_eq!(docs[0].body, serde_yaml::Value::Null);
    assert_eq!(docs[0].envelope.kind, None);
    assert_eq!(docs[0].envelope.api_version, None);
}

#[test]
fn documents_keep_template_order_and_envelopes() {
    let template = "\
apiVersion: v1
kind: Secret
metadata:
  name: moonscale-instance-{{ name }}
---
apiVersion: apps/v1
kind: StatefulSet
metadata:
  name: {{ name }}
  namespace: elsewhere
";
    let ctx = build_template_context(&request("pr-5", 2), &config(), "p");
    let docs = render_documents(template, &ctx).unwrap();
    assert_eq!(docs.len(), 2);
    assert_eq!(docs[0].envelope.api_version.as_deref(), Some("v1"));
    assert_eq!(docs[0].envelope.kind.as_deref(), Some("Secret"));
    assert_eq!(docs[0].envelope.namespace, None);
    assert_eq!(
        docs[0].envelope.name.as_deref(),
        Some("moonscale-instance-pr-5")
    );
    assert_eq!(docs[1].envelope.api_version.as_deref(), Some("apps/v1"));
    assert_eq!(docs[1].envelope.kind.as_deref(), Some("StatefulSet"));
    assert_eq!(docs[1].envelope.namespace.as_deref(), Some("elsewhere"));
    assert_eq!(docs[1].envelope.name.as_deref(), Some("pr-5"));
}

fn sample_index() -> DiscoveryIndex {
    let verbs: Vec<String> = ["create", "delete", "get", "list", "patch"]
        .iter()
        .map(|v| v.to_string())
        .collect();
    DiscoveryIndex {
        resources: vec![
            ApiResourceDescriptor {
                group: "".to_string(),
                version: "v1".to_string(),
                kind: "Secret".to_string(),
                scope: ResourceScope::Namespaced,
                verbs: verbs.clone(),
            },
            ApiResourceDescriptor {
                group: "apps".to_string(),
                version: "v1".to_string(),
                kind: "StatefulSet".to_string(),
                scope: ResourceScope::Namespaced,
                verbs,
            },
        ],
    }
}

#[test]
fn create_list_delete_scenario() {
    let template = "\
apiVersion: v1
kind: Secret
metadata:
  name: moonscale-instance-{{ name }}
  labels:
    app.kubernetes.io/managed-by: Moonscale
    app.kubernetes.io/instance: \"{{ name }}\"
data:
  password: {{ root_password }}
---
apiVersion: apps/v1
kind: StatefulSet
metadata:
  name: {{ name }}
  labels:
    app.kubernetes.io/managed-by: Moonscale
    app.kubernetes.io/instance: \"{{ name }}\"
spec:
  storage: {{ pvc_size }}
";
    let req = request("pr-108", 2);
    let cfg = config();
    let password = generate_password();

    // Create: render, resolve and plan every document, apply all of them.
    let ctx = build_template_context(&req, &cfg, &password);
    let docs = render_documents(template, &ctx).unwrap();
    assert_eq!(docs.len(), 2);
    for doc in &docs {
        let labels = doc.body.get("metadata").and_then(|m| m.get("labels")).unwrap();
        assert_eq!(
            labels
                .get("app.kubernetes.io/managed-by")
                .and_then(|v| v.as_str()),
            Some("Moonscale")
        );
        assert_eq!(
            labels
                .get("app.kubernetes.io/instance")
                .and_then(|v| v.as_str()),
            Some("pr-108")
        );
    }
    let index = sample_index();
    let plans = plan_all(&index, &docs);
    assert!(matches!(plans[0], DocDirective::Apply { resource: 0, .. }));
    assert!(matches!(plans[1], DocDirective::Apply { resource: 1, .. }));
    let report = tally_apply(&vec![ApplyEvent::Applied, ApplyEvent::Applied]);
    assert_eq!(report.succeeded, 2);
    let response = create_response(&req.name, &password, &cfg.ingress_domain);
    assert_eq!(response.database_name, "pr-108");

    // List: the one labeled workload with a readable credential is returned.
    let entries = vec![ListEntry {
        labels: vec![
            (
                "app.kubernetes.io/managed-by".to_string(),
                "Moonscale".to_string(),
            ),
            (
                "app.kubernetes.io/instance".to_string(),
                "pr-108".to_string(),
            ),
        ],
        credential: Some(password.clone()),
    }];
    let records = assemble_instances(&entries, &cfg.ingress_domain);
    assert_eq!(records.len(), 1);
    assert_eq!(records[0].database_name, "pr-108");

    // Delete: both objects found and removed; a second scan finds nothing.
    let targets = delete_targets(&index, "pr-108");
    assert_eq!(targets.len(), 2);
    let first = delete_verdict(&vec![
        KindScanEvent::Listed {
            matched: 1,
            deleted: 1,
        },
        KindScanEvent::Listed {
            matched: 1,
            deleted: 1,
        },
    ]);
    assert_eq!(first.unwrap().objects_deleted, 2);
    let second = delete_verdict(&vec![
        KindScanEvent::Listed {
            matched: 0,
            deleted: 0,
        },
        KindScanEvent::Listed {
            matched: 0,
            deleted: 0,
        },
    ]);
    assert!(matches!(second, Err(DeleteError::NotFound)));
}
