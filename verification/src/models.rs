//! Plain data shapes for the registry document, its service entries, the
//! resolved-target result, and the publish-ingress policy substructures.

use vstd::prelude::*;

verus! {

/// The root registry document: an informational version stamp, the service
/// registrations, and an optional publish-ingress policy.
#[derive(Clone, Debug)]
pub struct ServiceMeshRegistryDocument {
    pub version: String,
    pub services: Vec<ServiceRegistration>,
    pub publish_ingress_policy: Option<PublishIngressPolicy>,
}

/// One backend service: its name, its base URL, and the API contracts it owns.
#[derive(Clone, Debug)]
pub struct ServiceRegistration {
    pub service_name: String,
    pub base_url: String,
    pub api_contracts: Vec<String>,
}

/// The answer to a contract query: the owning service's name and base URL,
/// plus the normalized (trimmed) contract identifier that was looked up.
#[derive(Clone, Debug, PartialEq, Eq)]
pub struct ResolvedServiceTarget {
    pub service_name: String,
    pub base_url: String,
    pub api_contract: String,
}

/// A hop's actually configured body-size limit, as resolved at runtime.
#[derive(Clone, Debug, PartialEq, Eq)]
pub struct PublishIngressHopRuntimeLimit {
    pub hop_name: String,
    pub configured_max_body_bytes: u64,
}

/// The cross-hop publish-ingress body-size policy.
#[derive(Clone, Debug)]
pub struct PublishIngressPolicy {
    pub policy_owner_product: String,
    pub publish_api_contract: String,
    pub default_max_body_bytes: u64,
    pub required_hops: Vec<PublishIngressRequiredHop>,
    pub observability: PublishIngressObservability,
}

/// One required hop in a publish request path, and the environment variable
/// that carries its configured body-size limit.
#[derive(Clone, Debug)]
pub struct PublishIngressRequiredHop {
    pub hop_name: String,
    pub product: String,
    pub max_body_bytes_env_var: String,
}

/// Where rejections under the publish-ingress policy are reported.
#[derive(Clone, Debug)]
pub struct PublishIngressObservability {
    pub rejection_metric_name: String,
    pub rejection_log_fields: Vec<String>,
}

/// The mathematical shape of a registry document: every string a character
/// sequence.
pub ghost struct ServiceMeshRegistryDocumentView {
    pub version: Seq<char>,
    pub services: Seq<ServiceRegistrationView>,
    pub publish_ingress_policy: Option<PublishIngressPolicyView>,
}

/// The mathematical shape of one service registration.
pub ghost struct ServiceRegistrationView {
    pub service_name: Seq<char>,
    pub base_url: Seq<char>,
    pub api_contracts: Seq<Seq<char>>,
}

/// The mathematical shape of a resolved target.
pub ghost struct ResolvedServiceTargetView {
    pub service_name: Seq<char>,
    pub base_url: Seq<char>,
    pub api_contract: Seq<char>,
}

/// The mathematical shape of a hop's runtime limit.
pub ghost struct PublishIngressHopRuntimeLimitView {
    pub hop_name: Seq<char>,
    pub configured_max_body_bytes: u64,
}

/// The mathematical shape of a publish-ingress policy.
pub ghost struct PublishIngressPolicyView {
    pub policy_owner_product: Seq<char>,
    pub publish_api_contract: Seq<char>,
    pub default_max_body_bytes: u64,
    pub required_hops: Seq<PublishIngressRequiredHopView>,
    pub observability: PublishIngressObservabilityView,
}

/// The mathematical shape of one required hop.
pub ghost struct PublishIngressRequiredHopView {
    pub hop_name: Seq<char>,
    pub product: Seq<char>,
    pub max_body_bytes_env_var: Seq<char>,
}

/// The mathematical shape of the observability block.
pub ghost struct PublishIngressObservabilityView {
    pub rejection_metric_name: Seq<char>,
    pub rejection_log_fields: Seq<Seq<char>>,
}

impl View for ServiceRegistration {
    type V = ServiceRegistrationView;

    open spec fn view(&self) -> ServiceRegistrationView {
        ServiceRegistrationView {
            service_name: self.service_name@,
            base_url: self.base_url@,
            api_contracts: self.api_contracts.deep_view(),
        }
    }
}

impl DeepView for ServiceRegistration {
    type V = ServiceRegistrationView;

    open spec fn deep_view(&self) -> ServiceRegistrationView {
        self.view()
    }
}

impl View for ServiceMeshRegistryDocument {
    type V = ServiceMeshRegistryDocumentView;

    open spec fn view(&self) -> ServiceMeshRegistryDocumentView {
        ServiceMeshRegistryDocumentView {
            version: self.version@,
            services: self.services.deep_view(),
            publish_ingress_policy: match self.publish_ingress_policy {
                Some(p) => Some(p@),
                None => None,
            },
        }
    }
}

impl View for ResolvedServiceTarget {
    type V = ResolvedServiceTargetView;

    open spec fn view(&self) -> ResolvedServiceTargetView {
        ResolvedServiceTargetView {
            service_name: self.service_name@,
            base_url: self.base_url@,
            api_contract: self.api_contract@,
        }
    }
}

impl View for PublishIngressHopRuntimeLimit {
    type V = PublishIngressHopRuntimeLimitView;

    open spec fn view(&self) -> PublishIngressHopRuntimeLimitView {
        PublishIngressHopRuntimeLimitView {
            hop_name: self.hop_name@,
            configured_max_body_bytes: self.configured_max_body_bytes,
        }
    }
}

impl DeepView for PublishIngressHopRuntimeLimit {
    type V = PublishIngressHopRuntimeLimitView;

    open spec fn deep_view(&self) -> PublishIngressHopRuntimeLimitView {
        self.view()
    }
}

impl View for PublishIngressPolicy {
    type V = PublishIngressPolicyView;

    open spec fn view(&self) -> PublishIngressPolicyView {
        PublishIngressPolicyView {
            policy_owner_product: self.policy_owner_product@,
            publish_api_contract: self.publish_api_contract@,
            default_max_body_bytes: self.default_max_body_bytes,
            required_hops: self.required_hops.deep_view(),
            observability: self.observability@,
        }
    }
}

impl View for PublishIngressRequiredHop {
    type V = PublishIngressRequiredHopView;

    open spec fn view(&self) -> PublishIngressRequiredHopView {
        PublishIngressRequiredHopView {
            hop_name: self.hop_name@,
            product: self.product@,
            max_body_bytes_env_var: self.max_body_bytes_env_var@,
        }
    }
}

impl DeepView for PublishIngressRequiredHop {
    type V = PublishIngressRequiredHopView;

    open spec fn deep_view(&self) -> PublishIngressRequiredHopView {
        self.view()
    }
}

impl View for PublishIngressObservability {
    type V = PublishIngressObservabilityView;

    open spec fn view(&self) -> PublishIngressObservabilityView {
        PublishIngressObservabilityView {
            rejection_metric_name: self.rejection_metric_name@,
            rejection_log_fields: self.rejection_log_fields.deep_view(),
        }
    }
}

} // verus!
