//! A validated, in-memory service mesh registry: a declarative document
//! says which backend service owns which versioned API contract, the
//! validator decides whether the document is admissible, and the registry
//! answers contract-to-endpoint queries and enforces the optional
//! publish-ingress body-size policy. Every query's outcome is specified
//! against a mathematical view of the document, and the laws module states
//! what admissibility guarantees about resolution and the policy checks.

mod base_url;
mod constants;
mod error;
mod laws;
mod models;
mod registry;
mod text;
mod validation;

pub use base_url::BaseUrlCheck;
pub use base_url::url_has_host;
pub use base_url::url_parse_outcome;
pub use constants::API_ACCOUNTS_GET_BY_IDENTITY_V1;
pub use constants::API_ACCOUNTS_GET_BY_ID_V1;
pub use constants::API_ACCOUNTS_INTERNAL_BOOTSTRAP_V1;
pub use constants::API_ACCOUNTS_UPDATE_V1;
pub use constants::API_AUTH_GUEST_UPGRADE_V1;
pub use constants::API_AUTH_LOGIN_V1;
pub use constants::API_AUTH_REFRESH_V1;
pub use constants::API_AUTH_REGISTER_V1;
pub use constants::API_DISCOVERY_CATALOG_V1;
pub use constants::API_DISCOVERY_DETAIL_V1;
pub use constants::API_DISCOVERY_HOME_FEED_V1;
pub use constants::API_DISCOVERY_HOME_V1;
pub use constants::API_DISCOVERY_PLAY_SESSION_CREATE_V1;
pub use constants::API_DISCOVERY_PLAY_SESSION_GET_V1;
pub use constants::API_DISCOVERY_PUBLISH_CREATE_V1;
pub use constants::API_DISCOVERY_SCHEMA_V1;
pub use constants::API_IDENTITY_POLICY_EVALUATION_V1;
pub use constants::API_IDENTITY_PROFILE_GET_V1;
pub use constants::API_IDENTITY_PROFILE_UPSERT_V1;
pub use constants::AUTH_STACK_INTERNAL_API_CONTRACTS;
pub use constants::ENV_WORLD_BUILDER_SERVICE_MESH_REGISTRY_JSON;
pub use constants::ENV_WORLD_BUILDER_SERVICE_MESH_REGISTRY_PATH;
pub use constants::MVP_ANON_2D_API_CONTRACTS;
pub use constants::MVP_ANON_2D_GATEWAY_API_CONTRACTS;
pub use constants::MVP_ANON_2D_READ_API_CONTRACTS;
pub use error::MeshRegistryError;
pub use error::comma_joined;
pub use error::error_message_of;
pub use laws::lemma_declared_contracts_resolve;
pub use laws::lemma_hop_query_finds_hop;
pub use laws::lemma_policy_hop_names_unique;
pub use laws::lemma_valid_document_policy;
pub use laws::lemma_duplicate_contract_rejected;
pub use laws::lemma_own_contracts_always_registered;
pub use laws::lemma_resolve_finds_owner;
pub use laws::lemma_sorted_unique_canonical;
pub use laws::lemma_valid_document_contracts;
pub use models::PublishIngressHopRuntimeLimit;
pub use models::PublishIngressObservability;
pub use models::PublishIngressPolicy;
pub use models::PublishIngressRequiredHop;
pub use models::ResolvedServiceTarget;
pub use models::ServiceMeshRegistryDocument;
pub use models::ServiceRegistration;
pub use models::PublishIngressHopRuntimeLimitView;
pub use models::PublishIngressObservabilityView;
pub use models::PublishIngressPolicyView;
pub use models::PublishIngressRequiredHopView;
pub use models::ResolvedServiceTargetView;
pub use models::ServiceMeshRegistryDocumentView;
pub use models::ServiceRegistrationView;
pub use registry::ServiceMeshRegistry;
pub use registry::all_required_registered;
pub use registry::any_required_contract_blank;
pub use registry::configured_limit_for;
pub use registry::contract_registered;
pub use registry::first_nonconforming_hop;
pub use registry::hop_conforms;
pub use registry::missing_before;
pub use registry::missing_required_contracts;
pub use registry::policy_defines_hop;
pub use registry::single_service_document;
pub use registry::service_owns_contract;
pub use validation::contract_list_error;
pub use validation::contract_seen_before;
pub use validation::document_error;
pub use validation::document_valid;
pub use validation::hop_env_var_duplicated;
pub use validation::hop_list_error;
pub use validation::hop_name_duplicated;
pub use validation::log_field_list_error;
pub use validation::policy_error;
pub use validation::service_error;
pub use validation::service_list_error;
pub use validation::service_name_duplicated;
pub use text::all_decimal_digits;
pub use text::decimal_digit_char;
pub use text::decimal_digit_value;
pub use text::decimal_string_of;
pub use text::decimal_value;
pub use text::is_decimal_digit;
pub use text::lemma_lex_le_antisymmetric;
pub use text::lemma_lex_le_total;
pub use text::lemma_lex_le_transitive;
pub use text::lex_le;
pub use text::lex_lt;
pub use text::parse_u64_of;
pub use text::seq_sorted_strict;
pub use text::trim_of;
