use mesh_registry::API_DISCOVERY_CATALOG_V1;
use mesh_registry::API_DISCOVERY_DETAIL_V1;
use mesh_registry::API_DISCOVERY_HOME_V1;
use mesh_registry::API_DISCOVERY_PUBLISH_CREATE_V1;
use mesh_registry::API_DISCOVERY_SCHEMA_V1;
use mesh_registry::MVP_ANON_2D_API_CONTRACTS;
use mesh_registry::MVP_ANON_2D_GATEWAY_API_CONTRACTS;
use mesh_registry::MVP_ANON_2D_READ_API_CONTRACTS;
use mesh_registry::MeshRegistryError;
use mesh_registry::ServiceMeshRegistry;
use mesh_registry::ServiceMeshRegistryDocument;
use mesh_registry::ServiceRegistration;

fn strings(list: &[&str]) -> Vec<String> {
    list.iter().map(|s| s.to_string()).collect()
}

#[test]
fn lib_resolves_contract_to_registered_service() {
    let registry = ServiceMeshRegistry::single_service(
        "2026-02-21",
        "backend-data-center",
        "http://127.0.0.1:8787",
        strings(&MVP_ANON_2D_API_CONTRACTS),
    )
    .unwrap();

    let resolved_target = registry
        .resolve_api_contract(API_DISCOVERY_SCHEMA_V1)
        .unwrap();

    assert_eq!(resolved_target.service_name, "backend-data-center");
    assert_eq!(resolved_target.base_url, "http://127.0.0.1:8787");
    assert_eq!(resolved_target.api_contract, API_DISCOVERY_SCHEMA_V1);
}

#[test]
fn lib_rejects_duplicate_api_contract_across_services() {
    let registry_document = ServiceMeshRegistryDocument {
        version: "2026-02-21".to_string(),
        services: vec![
            ServiceRegistration {
                service_name: "backend-data-center-a".to_string(),
                base_url: "http://127.0.0.1:8787".to_string(),
                api_contracts: vec![API_DISCOVERY_HOME_V1.to_string()],
            },
            ServiceRegistration {
                service_name: "backend-data-center-b".to_string(),
                base_url: "http://127.0.0.1:8789".to_string(),
                api_contracts: vec![API_DISCOVERY_HOME_V1.to_string()],
            },
        ],
        publish_ingress_policy: None,
    };

    let error = ServiceMeshRegistry::from_document(registry_document).unwrap_err();
    assert_eq!(
        error,
        MeshRegistryError::InvalidDocument(
            "api contract 'worldbuilder.discovery.home.v1' is registered by multiple services"
                .to_string()
        )
    );
}

#[test]
fn lib_returns_error_for_unknown_contract() {
    let registry = ServiceMeshRegistry::single_service(
        "2026-02-21",
        "backend-data-center",
        "http://127.0.0.1:8787",
        strings(&[API_DISCOVERY_CATALOG_V1]),
    )
    .unwrap();

    let error = registry
        .resolve_api_contract(API_DISCOVERY_DETAIL_V1)
        .unwrap_err();
    assert_eq!(
        error,
        MeshRegistryError::UnknownApiContract(API_DISCOVERY_DETAIL_V1.to_string())
    );
}

#[test]
fn lib_validates_required_contracts_for_mvp() {
    let registry = ServiceMeshRegistry::single_service(
        "2026-02-21",
        "backend-data-center",
        "http://127.0.0.1:8787",
        strings(&MVP_ANON_2D_API_CONTRACTS),
    )
    .unwrap();

    registry
        .ensure_contracts_registered(&strings(&MVP_ANON_2D_API_CONTRACTS))
        .unwrap();
}

#[test]
fn lib_returns_missing_required_contracts_when_registry_is_incomplete() {
    let registry = ServiceMeshRegistry::single_service(
        "2026-02-21",
        "backend-data-center",
        "http://127.0.0.1:8787",
        strings(&[API_DISCOVERY_CATALOG_V1]),
    )
    .unwrap();

    let error = registry
        .ensure_contracts_registered(&strings(&MVP_ANON_2D_API_CONTRACTS))
        .unwrap_err();
    assert_eq!(
        error,
        MeshRegistryError::MissingRequiredApiContracts(vec![
            "worldbuilder.discovery.detail.v1".to_string(),
            "worldbuilder.discovery.home.v1".to_string(),
            "worldbuilder.discovery.play-session.create.v1".to_string(),
            "worldbuilder.discovery.play-session.get.v1".to_string(),
            "worldbuilder.discovery.schema.v1".to_string(),
        ])
    );
}

#[test]
fn tests_resolves_contract_to_registered_service() {
    let registry = ServiceMeshRegistry::single_service(
        "2026-02-21",
        "backend-data-center",
        "http://127.0.0.1:8787",
        strings(&MVP_ANON_2D_GATEWAY_API_CONTRACTS),
    )
    .unwrap();

    let resolved_target = registry
        .resolve_api_contract(API_DISCOVERY_SCHEMA_V1)
        .unwrap();

    assert_eq!(resolved_target.service_name, "backend-data-center");
    assert_eq!(resolved_target.base_url, "http://127.0.0.1:8787");
    assert_eq!(resolved_target.api_contract, API_DISCOVERY_SCHEMA_V1);
}

#[test]
fn tests_rejects_duplicate_api_contract_across_services() {
    let registry_document = ServiceMeshRegistryDocument {
        version: "2026-02-21".to_string(),
        services: vec![
            ServiceRegistration {
                service_name: "backend-data-center-a".to_string(),
                base_url: "http://127.0.0.1:8787".to_string(),
                api_contracts: vec![API_DISCOVERY_DETAIL_V1.to_string()],
            },
            ServiceRegistration {
                service_name: "backend-data-center-b".to_string(),
                base_url: "http://127.0.0.1:8789".to_string(),
                api_contracts: vec![API_DISCOVERY_DETAIL_V1.to_string()],
            },
        ],
        publish_ingress_policy: None,
    };

    let error = ServiceMeshRegistry::from_document(registry_document).unwrap_err();
    assert_eq!(
        error,
        MeshRegistryError::InvalidDocument(
            "api contract 'worldbuilder.discovery.detail.v1' is registered by multiple services"
                .to_string()
        )
    );
}

#[test]
fn tests_returns_error_for_unknown_contract() {
    let registry = ServiceMeshRegistry::single_service(
        "2026-02-21",
        "backend-data-center",
        "http://127.0.0.1:8787",
        strings(&[API_DISCOVERY_CATALOG_V1]),
    )
    .unwrap();

    let error = registry
        .resolve_api_contract(API_DISCOVERY_DETAIL_V1)
        .unwrap_err();
    assert_eq!(
        error,
        MeshRegistryError::UnknownApiContract(API_DISCOVERY_DETAIL_V1.to_string())
    );
}

#[test]
fn tests_falls_back_to_single_service_when_environment_is_empty() {
    let registry = ServiceMeshRegistry::from_environment_or_single_service(
        None,
        "2026-02-21",
        "backend-data-center",
        "http://127.0.0.1:8787",
        strings(&[API_DISCOVERY_SCHEMA_V1]),
    )
    .unwrap();

    let resolved_target = registry
        .resolve_api_contract(API_DISCOVERY_SCHEMA_V1)
        .unwrap();
    assert_eq!(resolved_target.service_name, "backend-data-center");
}

#[test]
fn tests_validates_required_contracts_for_mvp() {
    let registry = ServiceMeshRegistry::single_service(
        "2026-02-21",
        "backend-data-center",
        "http://127.0.0.1:8787",
        strings(&MVP_ANON_2D_GATEWAY_API_CONTRACTS),
    )
    .unwrap();

    registry
        .ensure_contracts_registered(&strings(&MVP_ANON_2D_GATEWAY_API_CONTRACTS))
        .unwrap();
}

#[test]
fn tests_returns_missing_required_contracts_when_registry_is_incomplete() {
    let registry = ServiceMeshRegistry::single_service(
        "2026-02-21",
        "backend-data-center",
        "http://127.0.0.1:8787",
        strings(&[API_DISCOVERY_CATALOG_V1]),
    )
    .unwrap();

    let error = registry
        .ensure_contracts_registered(&strings(&MVP_ANON_2D_GATEWAY_API_CONTRACTS))
        .unwrap_err();
    assert_eq!(
        error,
        MeshRegistryError::MissingRequiredApiContracts(vec![
            "worldbuilder.auth.guest-upgrade.v1".to_string(),
            "worldbuilder.auth.login.v1".to_string(),
            "worldbuilder.auth.refresh.v1".to_string(),
            "worldbuilder.auth.register.v1".to_string(),
            "worldbuilder.discovery.detail.v1".to_string(),
            "worldbuilder.discovery.home_feed.v1".to_string(),
            "worldbuilder.discovery.play-session.get.v1".to_string(),
            "worldbuilder.discovery.publish.create.v1".to_string(),
            "worldbuilder.discovery.schema.v1".to_string(),
        ])
    );
}

#[test]
fn environment_registry_takes_precedence_over_the_fallback() {
    let environment_registry = ServiceMeshRegistry::single_service(
        "2026-02-21",
        "backend-data-center-env",
        "http://127.0.0.1:9999",
        strings(&[API_DISCOVERY_CATALOG_V1]),
    )
    .unwrap();

    let registry = ServiceMeshRegistry::from_environment_or_single_service(
        Some(environment_registry),
        "2026-02-21",
        "backend-data-center",
        "http://127.0.0.1:8787",
        strings(&[API_DISCOVERY_SCHEMA_V1]),
    )
    .unwrap();

    let resolved_target = registry
        .resolve_api_contract(API_DISCOVERY_CATALOG_V1)
        .unwrap();
    assert_eq!(resolved_target.service_name, "backend-data-center-env");
    assert_eq!(resolved_target.base_url, "http://127.0.0.1:9999");
}

#[test]
fn mvp_read_contracts_exclude_publish_contract() {
    assert!(!MVP_ANON_2D_READ_API_CONTRACTS.contains(&API_DISCOVERY_PUBLISH_CREATE_V1));
    assert_eq!(MVP_ANON_2D_READ_API_CONTRACTS.len(), 4);
}
