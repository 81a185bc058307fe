use mesh_registry::MeshRegistryError;
use mesh_registry::PublishIngressHopRuntimeLimit;
use mesh_registry::PublishIngressObservability;
use mesh_registry::PublishIngressPolicy;
use mesh_registry::PublishIngressRequiredHop;
use mesh_registry::ResolvedServiceTarget;
use mesh_registry::ServiceMeshRegistry;
use mesh_registry::ServiceMeshRegistryDocument;
use mesh_registry::ServiceRegistration;

fn service(name: &str, base_url: &str, contracts: &[&str]) -> ServiceRegistration {
    ServiceRegistration {
        service_name: name.to_string(),
        base_url: base_url.to_string(),
        api_contracts: contracts.iter().map(|c| c.to_string()).collect(),
    }
}

fn document(services: Vec<ServiceRegistration>) -> ServiceMeshRegistryDocument {
    ServiceMeshRegistryDocument {
        version: "2026-02-21".to_string(),
        services,
        publish_ingress_policy: None,
    }
}

fn invalid(document: ServiceMeshRegistryDocument) -> String {
    match ServiceMeshRegistry::from_document(document).unwrap_err() {
        MeshRegistryError::InvalidDocument(message) => message,
        other => panic!("expected InvalidDocument, got {:?}", other),
    }
}

#[test]
fn resolves_single_service_scenario() {
    let registry = ServiceMeshRegistry::from_document(document(vec![service(
        "svc-a",
        "http://127.0.0.1:8080",
        &["x.read.v1"],
    )]))
    .unwrap();

    assert_eq!(
        registry.resolve_api_contract("x.read.v1").unwrap(),
        ResolvedServiceTarget {
            service_name: "svc-a".to_string(),
            base_url: "http://127.0.0.1:8080".to_string(),
            api_contract: "x.read.v1".to_string(),
        }
    );
    assert_eq!(
        registry.resolve_api_contract("x.write.v1").unwrap_err(),
        MeshRegistryError::UnknownApiContract("x.write.v1".to_string())
    );
}

#[test]
fn resolution_trims_the_query_and_the_declared_contract() {
    let registry = ServiceMeshRegistry::from_document(document(vec![service(
        "svc-a",
        "http://127.0.0.1:8080",
        &["  x.read.v1  "],
    )]))
    .unwrap();

    let resolved = registry.resolve_api_contract("  x.read.v1 ").unwrap();
    assert_eq!(resolved.service_name, "svc-a");
    assert_eq!(resolved.api_contract, "x.read.v1");
    assert_eq!(registry.resolve_api_contract("x.read.v1").unwrap().api_contract, "x.read.v1");
}

#[test]
fn resolves_each_of_three_services_own_contracts() {
    let registry = ServiceMeshRegistry::from_document(document(vec![
        service("svc-a", "http://127.0.0.1:8080", &["a.one.v1", "a.two.v1"]),
        service("svc-b", "http://127.0.0.1:8081", &["b.one.v1"]),
        service("svc-c", "http://127.0.0.1:8082", &["c.one.v1", "c.two.v1"]),
    ]))
    .unwrap();

    for (owner, contract) in [
        ("svc-a", "a.one.v1"),
        ("svc-a", "a.two.v1"),
        ("svc-b", "b.one.v1"),
        ("svc-c", "c.one.v1"),
        ("svc-c", "c.two.v1"),
    ] {
        let resolved = registry.resolve_api_contract(contract).unwrap();
        assert_eq!(resolved.service_name, owner);
    }
    registry
        .ensure_contracts_registered(&vec![
            "a.one.v1".to_string(),
            "a.two.v1".to_string(),
            "b.one.v1".to_string(),
            "c.one.v1".to_string(),
            "c.two.v1".to_string(),
        ])
        .unwrap();
}

#[test]
fn missing_list_is_sorted_and_deduplicated_whatever_the_input_order() {
    let registry = ServiceMeshRegistry::from_document(document(vec![service(
        "svc-a",
        "http://127.0.0.1:8080",
        &["x.read.v1"],
    )]))
    .unwrap();

    let shuffled = vec![
        "z.write.v1".to_string(),
        "a.write.v1".to_string(),
        "x.read.v1".to_string(),
        "z.write.v1".to_string(),
        " a.write.v1 ".to_string(),
    ];
    let reversed = vec![
        "a.write.v1".to_string(),
        "z.write.v1".to_string(),
        "x.read.v1".to_string(),
    ];
    let expected = MeshRegistryError::MissingRequiredApiContracts(vec![
        "a.write.v1".to_string(),
        "z.write.v1".to_string(),
    ]);
    assert_eq!(registry.ensure_contracts_registered(&shuffled).unwrap_err(), expected);
    assert_eq!(registry.ensure_contracts_registered(&reversed).unwrap_err(), expected);
}

#[test]
fn blank_required_entry_is_a_caller_error() {
    let registry = ServiceMeshRegistry::from_document(document(vec![service(
        "svc-a",
        "http://127.0.0.1:8080",
        &["x.read.v1"],
    )]))
    .unwrap();

    let error = registry
        .ensure_contracts_registered(&vec!["x.read.v1".to_string(), "   ".to_string()])
        .unwrap_err();
    assert_eq!(
        error,
        MeshRegistryError::InvalidDocument(
            "required api contract list contains an empty value".to_string()
        )
    );
}

#[test]
fn version_is_echoed_back() {
    let registry = ServiceMeshRegistry::from_document(document(vec![service(
        "svc-a",
        "http://127.0.0.1:8080",
        &["x.read.v1"],
    )]))
    .unwrap();
    assert_eq!(registry.version(), "2026-02-21");
}

#[test]
fn rejects_blank_version() {
    let mut doc = document(vec![service("svc-a", "http://127.0.0.1:8080", &["x.read.v1"])]);
    doc.version = "   ".to_string();
    assert_eq!(invalid(doc), "version must not be empty");
}

#[test]
fn rejects_document_without_services() {
    assert_eq!(
        invalid(document(vec![])),
        "at least one service registration is required"
    );
}

#[test]
fn rejects_blank_service_name() {
    assert_eq!(
        invalid(document(vec![service(" ", "http://127.0.0.1:8080", &["x.read.v1"])])),
        "service_name must not be empty"
    );
}

#[test]
fn rejects_duplicate_service_name() {
    assert_eq!(
        invalid(document(vec![
            service("svc-a", "http://127.0.0.1:8080", &["x.read.v1"]),
            service(" svc-a ", "http://127.0.0.1:8081", &["y.read.v1"]),
        ])),
        "service_name 'svc-a' is duplicated"
    );
}

#[test]
fn rejects_unparsable_base_url() {
    assert_eq!(
        invalid(document(vec![service("svc-a", "not a url", &["x.read.v1"])])),
        "service 'svc-a' base_url 'not a url' is invalid: relative URL without a base"
    );
}

#[test]
fn rejects_base_url_without_host() {
    assert_eq!(
        invalid(document(vec![service(
            "svc-a",
            "unix:/run/backend.socket",
            &["x.read.v1"],
        )])),
        "service 'svc-a' base_url 'unix:/run/backend.socket' must include a host"
    );
}

#[test]
fn rejects_service_without_contracts() {
    assert_eq!(
        invalid(document(vec![service("svc-a", "http://127.0.0.1:8080", &[])])),
        "service 'svc-a' must register at least one api contract"
    );
}

#[test]
fn rejects_blank_contract_entry() {
    assert_eq!(
        invalid(document(vec![service("svc-a", "http://127.0.0.1:8080", &["x.read.v1", " "])])),
        "service 'svc-a' has an empty api contract entry"
    );
}

#[test]
fn rejects_duplicate_contract_within_one_service() {
    assert_eq!(
        invalid(document(vec![service(
            "svc-a",
            "http://127.0.0.1:8080",
            &["x.read.v1", " x.read.v1 "],
        )])),
        "api contract 'x.read.v1' is registered by multiple services"
    );
}

fn policy_document(policy: PublishIngressPolicy) -> ServiceMeshRegistryDocument {
    let mut doc = document(vec![service("svc-a", "http://127.0.0.1:8080", &["x.read.v1"])]);
    doc.publish_ingress_policy = Some(policy);
    doc
}

fn base_policy() -> PublishIngressPolicy {
    PublishIngressPolicy {
        policy_owner_product: "worldbuilder".to_string(),
        publish_api_contract: "x.publish.v1".to_string(),
        default_max_body_bytes: 1048576,
        required_hops: vec![PublishIngressRequiredHop {
            hop_name: "edge".to_string(),
            product: "gateway".to_string(),
            max_body_bytes_env_var: "EDGE_MAX_BODY".to_string(),
        }],
        observability: PublishIngressObservability {
            rejection_metric_name: "publish_body_rejected_total".to_string(),
            rejection_log_fields: vec!["hop".to_string()],
        },
    }
}

#[test]
fn rejects_policy_with_blank_owner_product() {
    let mut policy = base_policy();
    policy.policy_owner_product = " ".to_string();
    assert_eq!(
        invalid(policy_document(policy)),
        "publish_ingress_policy.policy_owner_product must not be empty"
    );
}

#[test]
fn rejects_policy_with_blank_publish_contract() {
    let mut policy = base_policy();
    policy.publish_api_contract = "".to_string();
    assert_eq!(
        invalid(policy_document(policy)),
        "publish_ingress_policy.publish_api_contract must not be empty"
    );
}

#[test]
fn rejects_policy_with_zero_floor() {
    let mut policy = base_policy();
    policy.default_max_body_bytes = 0;
    assert_eq!(
        invalid(policy_document(policy)),
        "publish_ingress_policy.default_max_body_bytes must be greater than zero"
    );
}

#[test]
fn rejects_policy_without_hops() {
    let mut policy = base_policy();
    policy.required_hops = vec![];
    assert_eq!(
        invalid(policy_document(policy)),
        "publish_ingress_policy.required_hops must include at least one hop"
    );
}

#[test]
fn rejects_policy_with_blank_metric_name() {
    let mut policy = base_policy();
    policy.observability.rejection_metric_name = " ".to_string();
    assert_eq!(
        invalid(policy_document(policy)),
        "publish_ingress_policy.observability.rejection_metric_name must not be empty"
    );
}

#[test]
fn rejects_policy_without_log_fields() {
    let mut policy = base_policy();
    policy.observability.rejection_log_fields = vec![];
    assert_eq!(
        invalid(policy_document(policy)),
        "publish_ingress_policy.observability.rejection_log_fields must include at least one field"
    );
}

#[test]
fn rejects_policy_with_blank_hop_name() {
    let mut policy = base_policy();
    policy.required_hops[0].hop_name = " ".to_string();
    assert_eq!(
        invalid(policy_document(policy)),
        "publish_ingress_policy.required_hops[].hop_name must not be empty"
    );
}

#[test]
fn rejects_policy_with_duplicate_hop_name() {
    let mut policy = base_policy();
    policy.required_hops.push(PublishIngressRequiredHop {
        hop_name: " edge ".to_string(),
        product: "cdn".to_string(),
        max_body_bytes_env_var: "CDN_MAX_BODY".to_string(),
    });
    assert_eq!(
        invalid(policy_document(policy)),
        "publish_ingress_policy.required_hops contains duplicate hop 'edge'"
    );
}

#[test]
fn rejects_policy_with_blank_hop_product() {
    let mut policy = base_policy();
    policy.required_hops[0].product = "".to_string();
    assert_eq!(
        invalid(policy_document(policy)),
        "publish_ingress_policy.required_hops['edge'].product must not be empty"
    );
}

#[test]
fn rejects_policy_with_blank_env_var() {
    let mut policy = base_policy();
    policy.required_hops[0].max_body_bytes_env_var = " ".to_string();
    assert_eq!(
        invalid(policy_document(policy)),
        "publish_ingress_policy.required_hops['edge'].max_body_bytes_env_var must not be empty"
    );
}

#[test]
fn rejects_policy_with_duplicate_env_var() {
    let mut policy = base_policy();
    policy.required_hops.push(PublishIngressRequiredHop {
        hop_name: "cdn".to_string(),
        product: "cdn".to_string(),
        max_body_bytes_env_var: " EDGE_MAX_BODY ".to_string(),
    });
    assert_eq!(
        invalid(policy_document(policy)),
        "publish_ingress_policy.required_hops uses duplicate max_body_bytes_env_var 'EDGE_MAX_BODY'"
    );
}

#[test]
fn rejects_policy_with_blank_log_field() {
    let mut policy = base_policy();
    policy.observability.rejection_log_fields = vec!["hop".to_string(), " ".to_string()];
    assert_eq!(
        invalid(policy_document(policy)),
        "publish_ingress_policy.observability.rejection_log_fields contains an empty field"
    );
}

#[test]
fn first_violation_wins_across_rules() {
    let mut doc = document(vec![
        service("svc-a", "not a url", &["x.read.v1"]),
        service("svc-a", "http://127.0.0.1:8080", &["x.read.v1"]),
    ]);
    doc.version = " ".to_string();
    assert_eq!(invalid(doc), "version must not be empty");
}

#[test]
fn error_messages_render_as_operator_sentences() {
    assert_eq!(
        MeshRegistryError::InvalidDocument("version must not be empty".to_string()).message(),
        "invalid service mesh registry: version must not be empty."
    );
    assert_eq!(
        MeshRegistryError::UnknownApiContract("x.write.v1".to_string()).message(),
        "service mesh api contract 'x.write.v1' is not registered."
    );
    assert_eq!(
        MeshRegistryError::MissingPublishIngressPolicy.message(),
        "service mesh registry is missing publish ingress policy."
    );
    assert_eq!(
        MeshRegistryError::MissingPublishIngressHop("cdn".to_string()).message(),
        "publish ingress policy does not define required hop 'cdn'."
    );
    assert_eq!(
        MeshRegistryError::MissingPublishIngressHopLimit {
            hop_name: "edge".to_string(),
            env_var: "EDGE_MAX_BODY".to_string(),
        }
        .message(),
        "publish ingress hop 'edge' is missing configured body limit env 'EDGE_MAX_BODY'."
    );
    assert_eq!(
        MeshRegistryError::InvalidPublishIngressHopLimit {
            hop_name: "edge".to_string(),
            env_var: "EDGE_MAX_BODY".to_string(),
            value: "ten".to_string(),
        }
        .message(),
        "publish ingress hop 'edge' env 'EDGE_MAX_BODY' must be a positive integer byte value, got 'ten'."
    );
    assert_eq!(
        MeshRegistryError::Decode("unexpected end of input".to_string()).message(),
        "failed to decode service mesh registry document: unexpected end of input."
    );
    assert_eq!(
        MeshRegistryError::Io("file not found".to_string()).message(),
        "failed to read service mesh registry source: file not found."
    );
}

#[test]
fn conforming_policy_round_trip() {
    let registry = ServiceMeshRegistry::from_document(policy_document(base_policy())).unwrap();
    let limit = registry
        .ensure_publish_ingress_hop_limit_from_value("edge", Some("1048576"))
        .unwrap();
    assert_eq!(
        limit,
        PublishIngressHopRuntimeLimit {
            hop_name: "edge".to_string(),
            configured_max_body_bytes: 1048576,
        }
    );
    registry
        .ensure_publish_ingress_all_hops_conform(&vec![limit])
        .unwrap();
}
