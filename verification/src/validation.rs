//! Document admissibility. `document_error` is the authoritative statement
//! of which documents the registry accepts: it walks the document in order
//! and yields the first violation's message, or `None` for a valid document.
//! The executable validators are proved to report exactly that outcome.

use vstd::prelude::*;
use vstd::string::StringExecFns;

use crate::base_url::url_has_host;
use crate::base_url::url_parse_outcome;
use crate::error::MeshRegistryError;
use crate::models::PublishIngressPolicy;
use crate::models::PublishIngressPolicyView;
use crate::models::PublishIngressRequiredHopView;
use crate::models::ServiceMeshRegistryDocument;
use crate::models::ServiceMeshRegistryDocumentView;
use crate::models::ServiceRegistration;
use crate::models::ServiceRegistrationView;
use crate::text::trim_of;
use crate::text::trim_str;

verus! {

/// Whether an earlier service (one before position `i`) carries the same
/// trimmed name as service `i`.
pub open spec fn service_name_duplicated(services: Seq<ServiceRegistrationView>, i: int) -> bool {
    exists|j: int|
        0 <= j < i && trim_of(services[j].service_name) == trim_of(services[i].service_name)
}

/// Whether the trimmed contract `c` already occurs somewhere before position
/// `k` of service `i`'s contract list, scanning the document in order.
pub open spec fn contract_seen_before(
    services: Seq<ServiceRegistrationView>,
    i: int,
    k: int,
    c: Seq<char>,
) -> bool {
    (exists|p: int, q: int|
        0 <= p < i && 0 <= q < services[p].api_contracts.len() && trim_of(
            services[p].api_contracts[q],
        ) == c) || (exists|q: int| 0 <= q < k && trim_of(services[i].api_contracts[q]) == c)
}

/// The first violation among service `i`'s contracts at positions `k` and
/// later, if any.
pub open spec fn contract_list_error(
    services: Seq<ServiceRegistrationView>,
    i: int,
    k: int,
) -> Option<Seq<char>>
    decreases services[i].api_contracts.len() - k,
{
    if !(0 <= i < services.len()) || k < 0 || k >= services[i].api_contracts.len() {
        None
    } else {
        let c = trim_of(services[i].api_contracts[k]);
        if c.len() == 0 {
            Some(
                "service '"@ + trim_of(services[i].service_name)
                    + "' has an empty api contract entry"@,
            )
        } else if contract_seen_before(services, i, k, c) {
            Some("api contract '"@ + c + "' is registered by multiple services"@)
        } else {
            contract_list_error(services, i, k + 1)
        }
    }
}

/// The first violation in service `i` itself, checked in document order:
/// empty name, duplicated name, unusable base URL, no contracts, then the
/// contract entries.
pub open spec fn service_error(services: Seq<ServiceRegistrationView>, i: int) -> Option<
    Seq<char>,
> {
    let s = services[i];
    let name = trim_of(s.service_name);
    if name.len() == 0 {
        Some("service_name must not be empty"@)
    } else if service_name_duplicated(services, i) {
        Some("service_name '"@ + name + "' is duplicated"@)
    } else if url_parse_outcome(trim_of(s.base_url)) is Err {
        Some(
            "service '"@ + name + "' base_url '"@ + s.base_url + "' is invalid: "@
                + url_parse_outcome(trim_of(s.base_url))->Err_0,
        )
    } else if !url_has_host(trim_of(s.base_url)) {
        Some("service '"@ + name + "' base_url '"@ + s.base_url + "' must include a host"@)
    } else if s.api_contracts.len() == 0 {
        Some("service '"@ + name + "' must register at least one api contract"@)
    } else {
        contract_list_error(services, i, 0)
    }
}

/// The first violation among services at positions `i` and later, if any.
pub open spec fn service_list_error(services: Seq<ServiceRegistrationView>, i: int) -> Option<
    Seq<char>,
>
    decreases services.len() - i,
{
    if i < 0 || i >= services.len() {
        None
    } else {
        match service_error(services, i) {
            Some(m) => Some(m),
            None => service_list_error(services, i + 1),
        }
    }
}

/// Whether an earlier hop (one before position `i`) carries the same trimmed
/// name as hop `i`.
pub open spec fn hop_name_duplicated(hops: Seq<PublishIngressRequiredHopView>, i: int) -> bool {
    exists|j: int| 0 <= j < i && trim_of(hops[j].hop_name) == trim_of(hops[i].hop_name)
}

/// Whether an earlier hop names the same trimmed limit environment variable
/// as hop `i`.
pub open spec fn hop_env_var_duplicated(hops: Seq<PublishIngressRequiredHopView>, i: int) -> bool {
    exists|j: int|
        0 <= j < i && trim_of(hops[j].max_body_bytes_env_var) == trim_of(
            hops[i].max_body_bytes_env_var,
        )
}

/// The first violation among required hops at positions `i` and later.
pub open spec fn hop_list_error(hops: Seq<PublishIngressRequiredHopView>, i: int) -> Option<
    Seq<char>,
>
    decreases hops.len() - i,
{
    if i < 0 || i >= hops.len() {
        None
    } else {
        let name = trim_of(hops[i].hop_name);
        let env_var = trim_of(hops[i].max_body_bytes_env_var);
        if name.len() == 0 {
            Some("publish_ingress_policy.required_hops[].hop_name must not be empty"@)
        } else if hop_name_duplicated(hops, i) {
            Some("publish_ingress_policy.required_hops contains duplicate hop '"@ + name + "'"@)
        } else if trim_of(hops[i].product).len() == 0 {
            Some(
                "publish_ingress_policy.required_hops['"@ + name + "'].product must not be empty"@,
            )
        } else if env_var.len() == 0 {
            Some(
                "publish_ingress_policy.required_hops['"@ + name
                    + "'].max_body_bytes_env_var must not be empty"@,
            )
        } else if hop_env_var_duplicated(hops, i) {
            Some(
                "publish_ingress_policy.required_hops uses duplicate max_body_bytes_env_var '"@
                    + env_var + "'"@,
            )
        } else {
            hop_list_error(hops, i + 1)
        }
    }
}

/// The first empty entry among the rejection log fields at positions `i` and
/// later, if any.
pub open spec fn log_field_list_error(fields: Seq<Seq<char>>, i: int) -> Option<Seq<char>>
    decreases fields.len() - i,
{
    if i < 0 || i >= fields.len() {
        None
    } else if trim_of(fields[i]).len() == 0 {
        Some("publish_ingress_policy.observability.rejection_log_fields contains an empty field"@)
    } else {
        log_field_list_error(fields, i + 1)
    }
}

/// The first violation in a publish-ingress policy, checked in document
/// order.
pub open spec fn policy_error(p: PublishIngressPolicyView) -> Option<Seq<char>> {
    if trim_of(p.policy_owner_product).len() == 0 {
        Some("publish_ingress_policy.policy_owner_product must not be empty"@)
    } else if trim_of(p.publish_api_contract).len() == 0 {
        Some("publish_ingress_policy.publish_api_contract must not be empty"@)
    } else if p.default_max_body_bytes == 0 {
        Some("publish_ingress_policy.default_max_body_bytes must be greater than zero"@)
    } else if p.required_hops.len() == 0 {
        Some("publish_ingress_policy.required_hops must include at least one hop"@)
    } else if trim_of(p.observability.rejection_metric_name).len() == 0 {
        Some("publish_ingress_policy.observability.rejection_metric_name must not be empty"@)
    } else if p.observability.rejection_log_fields.len() == 0 {
        Some(
            "publish_ingress_policy.observability.rejection_log_fields must include at least one field"@,
        )
    } else {
        match hop_list_error(p.required_hops, 0) {
            Some(m) => Some(m),
            None => log_field_list_error(p.observability.rejection_log_fields, 0),
        }
    }
}

/// The first violation in a whole document, checked in document order; a
/// document is admissible exactly when this is `None`.
pub open spec fn document_error(d: ServiceMeshRegistryDocumentView) -> Option<Seq<char>> {
    if trim_of(d.version).len() == 0 {
        Some("version must not be empty"@)
    } else if d.services.len() == 0 {
        Some("at least one service registration is required"@)
    } else {
        match service_list_error(d.services, 0) {
            Some(m) => Some(m),
            None => match d.publish_ingress_policy {
                Some(p) => policy_error(p),
                None => None,
            },
        }
    }
}

/// Whether the validator accepts the document.
pub open spec fn document_valid(d: ServiceMeshRegistryDocumentView) -> bool {
    document_error(d) is None
}

fn contract_seen(services: &Vec<ServiceRegistration>, i: usize, k: usize, needle: &str) -> (r:
    bool)
    requires
        i < services.deep_view().len(),
        k <= services.deep_view()[i as int].api_contracts.len(),
    ensures
        r == contract_seen_before(services.deep_view(), i as int, k as int, needle@),
{
    let ghost svcs = services.deep_view();
    let mut p: usize = 0;
    while p < i
        invariant
            p <= i,
            i < svcs.len(),
            svcs == services.deep_view(),
            k <= svcs[i as int].api_contracts.len(),
            forall|a: int, b: int|
                0 <= a < p && 0 <= b < svcs[a].api_contracts.len() ==> trim_of(
                    svcs[a].api_contracts[b],
                ) != needle@,
        decreases i - p,
    {
        let mut q: usize = 0;
        while q < services[p].api_contracts.len()
            invariant
                p < i,
                i < svcs.len(),
                svcs == services.deep_view(),
                q <= svcs[p as int].api_contracts.len(),
                forall|b: int| 0 <= b < q ==> trim_of(svcs[p as int].api_contracts[b]) != needle@,
            decreases svcs[p as int].api_contracts.len() - q,
        {
            proof {
                assert(svcs[p as int] == services@[p as int]@);
                assert(svcs[p as int].api_contracts[q as int] == services@[p as int].api_contracts@[q as int]@);
            }
            if crate::text::str_eq(trim_str(services[p].api_contracts[q].as_str()), needle) {
                return true;
            }
            q = q + 1;
        }
        p = p + 1;
    }
    let mut q: usize = 0;
    while q < k
        invariant
            q <= k,
            i < svcs.len(),
            svcs == services.deep_view(),
            k <= svcs[i as int].api_contracts.len(),
            forall|a: int, b: int|
                0 <= a < i && 0 <= b < svcs[a].api_contracts.len() ==> trim_of(
                    svcs[a].api_contracts[b],
                ) != needle@,
            forall|b: int| 0 <= b < q ==> trim_of(svcs[i as int].api_contracts[b]) != needle@,
        decreases k - q,
    {
        proof {
            assert(svcs[i as int] == services@[i as int]@);
            assert(svcs[i as int].api_contracts[q as int] == services@[i as int].api_contracts@[q as int]@);
        }
        if crate::text::str_eq(trim_str(services[i].api_contracts[q].as_str()), needle) {
            return true;
        }
        q = q + 1;
    }
    false
}

/// Checks a publish-ingress policy, reporting the first violation in
/// document order.
pub fn validate_publish_ingress_policy(policy: &PublishIngressPolicy) -> (r: Result<
    (),
    MeshRegistryError,
>)
    ensures
        (r is Ok) == (policy_error(policy@) is None),
        r is Err ==> (r->Err_0 matches MeshRegistryError::InvalidDocument(m) && (policy_error(
            policy@,
        ) matches Some(em) && m@ == em)),
{
    if trim_str(policy.policy_owner_product.as_str()).is_empty() {
        return Err(
            MeshRegistryError::InvalidDocument(
                String::from_str("publish_ingress_policy.policy_owner_product must not be empty"),
            ),
        );
    }
    if trim_str(policy.publish_api_contract.as_str()).is_empty() {
        return Err(
            MeshRegistryError::InvalidDocument(
                String::from_str("publish_ingress_policy.publish_api_contract must not be empty"),
            ),
        );
    }
    if policy.default_max_body_bytes == 0 {
        return Err(
            MeshRegistryError::InvalidDocument(
                String::from_str(
                    "publish_ingress_policy.default_max_body_bytes must be greater than zero",
                ),
            ),
        );
    }
    if policy.required_hops.len() == 0 {
        return Err(
            MeshRegistryError::InvalidDocument(
                String::from_str(
                    "publish_ingress_policy.required_hops must include at least one hop",
                ),
            ),
        );
    }
    if trim_str(policy.observability.rejection_metric_name.as_str()).is_empty() {
        return Err(
            MeshRegistryError::InvalidDocument(
                String::from_str(
                    "publish_ingress_policy.observability.rejection_metric_name must not be empty",
                ),
            ),
        );
    }
    if policy.observability.rejection_log_fields.len() == 0 {
        return Err(
            MeshRegistryError::InvalidDocument(
                String::from_str(
                    "publish_ingress_policy.observability.rejection_log_fields must include at least one field",
                ),
            ),
        );
    }
    let ghost hops = policy.required_hops.deep_view();
    let mut i: usize = 0;
    while i < policy.required_hops.len()
        invariant
            i <= hops.len(),
            hops == policy.required_hops.deep_view(),
            trim_of(policy.policy_owner_product@).len() > 0,
            trim_of(policy.publish_api_contract@).len() > 0,
            policy.default_max_body_bytes != 0,
            hops.len() > 0,
            trim_of(policy.observability.rejection_metric_name@).len() > 0,
            policy.observability.rejection_log_fields@.len() > 0,
            hop_list_error(hops, 0) == hop_list_error(hops, i as int),
        decreases hops.len() - i,
    {
        let hop = &policy.required_hops[i];
        let hop_name = trim_str(hop.hop_name.as_str());
        if hop_name.is_empty() {
            return Err(
                MeshRegistryError::InvalidDocument(
                    String::from_str(
                        "publish_ingress_policy.required_hops[].hop_name must not be empty",
                    ),
                ),
            );
        }
        let mut name_dup = false;
        let mut j: usize = 0;
        while j < i
            invariant
                j <= i,
                i < hops.len(),
                hops == policy.required_hops.deep_view(),
                hop_name@ == trim_of(hops[i as int].hop_name),
                name_dup == (exists|t: int|
                    0 <= t < j && trim_of(hops[t].hop_name) == trim_of(hops[i as int].hop_name)),
            decreases i - j,
        {
            proof {
                assert(hops[j as int] == policy.required_hops@[j as int]@);
            }
            if crate::text::str_eq(trim_str(policy.required_hops[j].hop_name.as_str()), hop_name) {
                name_dup = true;
            }
            j = j + 1;
        }
        if name_dup {
            let mut m = String::from_str(
                "publish_ingress_policy.required_hops contains duplicate hop '",
            );
            m.append(hop_name);
            m.append("'");
            return Err(MeshRegistryError::InvalidDocument(m));
        }
        if trim_str(hop.product.as_str()).is_empty() {
            let mut m = String::from_str("publish_ingress_policy.required_hops['");
            m.append(hop_name);
            m.append("'].product must not be empty");
            return Err(MeshRegistryError::InvalidDocument(m));
        }
        let env_var = trim_str(hop.max_body_bytes_env_var.as_str());
        if env_var.is_empty() {
            let mut m = String::from_str("publish_ingress_policy.required_hops['");
            m.append(hop_name);
            m.append("'].max_body_bytes_env_var must not be empty");
            return Err(MeshRegistryError::InvalidDocument(m));
        }
        let mut env_dup = false;
        let mut j2: usize = 0;
        while j2 < i
            invariant
                j2 <= i,
                i < hops.len(),
                hops == policy.required_hops.deep_view(),
                env_var@ == trim_of(hops[i as int].max_body_bytes_env_var),
                env_dup == (exists|t: int|
                    0 <= t < j2 && trim_of(hops[t].max_body_bytes_env_var) == trim_of(
                        hops[i as int].max_body_bytes_env_var,
                    )),
            decreases i - j2,
        {
            proof {
                assert(hops[j2 as int] == policy.required_hops@[j2 as int]@);
            }
            if crate::text::str_eq(
                trim_str(policy.required_hops[j2].max_body_bytes_env_var.as_str()),
                env_var,
            ) {
                env_dup = true;
            }
            j2 = j2 + 1;
        }
        if env_dup {
            let mut m = String::from_str(
                "publish_ingress_policy.required_hops uses duplicate max_body_bytes_env_var '",
            );
            m.append(env_var);
            m.append("'");
            return Err(MeshRegistryError::InvalidDocument(m));
        }
        i = i + 1;
    }
    let ghost fields = policy.observability.rejection_log_fields.deep_view();
    let mut f: usize = 0;
    while f < policy.observability.rejection_log_fields.len()
        invariant
            f <= fields.len(),
            fields == policy.observability.rejection_log_fields.deep_view(),
            trim_of(policy.policy_owner_product@).len() > 0,
            trim_of(policy.publish_api_contract@).len() > 0,
            policy.default_max_body_bytes != 0,
            policy.required_hops@.len() > 0,
            trim_of(policy.observability.rejection_metric_name@).len() > 0,
            fields.len() > 0,
            hop_list_error(policy.required_hops.deep_view(), 0) is None,
            log_field_list_error(fields, 0) == log_field_list_error(fields, f as int),
        decreases fields.len() - f,
    {
        if trim_str(policy.observability.rejection_log_fields[f].as_str()).is_empty() {
            return Err(
                MeshRegistryError::InvalidDocument(
                    String::from_str(
                        "publish_ingress_policy.observability.rejection_log_fields contains an empty field",
                    ),
                ),
            );
        }
        f = f + 1;
    }
    Ok(())
}

/// Checks a whole document, reporting the first violation in document order.
pub fn validate_registry_document(document: &ServiceMeshRegistryDocument) -> (r: Result<
    (),
    MeshRegistryError,
>)
    ensures
        (r is Ok) == document_valid(document@),
        r is Err ==> (r->Err_0 matches MeshRegistryError::InvalidDocument(m) && (document_error(
            document@,
        ) matches Some(em) && m@ == em)),
{
    if trim_str(document.version.as_str()).is_empty() {
        return Err(
            MeshRegistryError::InvalidDocument(String::from_str("version must not be empty")),
        );
    }
    if document.services.len() == 0 {
        return Err(
            MeshRegistryError::InvalidDocument(
                String::from_str("at least one service registration is required"),
            ),
        );
    }
    let ghost svcs = document.services.deep_view();
    let mut i: usize = 0;
    while i < document.services.len()
        invariant
            i <= svcs.len(),
            svcs == document.services.deep_view(),
            trim_of(document.version@).len() > 0,
            svcs.len() > 0,
            service_list_error(svcs, 0) == service_list_error(svcs, i as int),
        decreases svcs.len() - i,
    {
        let service = &document.services[i];
        let service_name = trim_str(service.service_name.as_str());
        if service_name.is_empty() {
            return Err(
                MeshRegistryError::InvalidDocument(
                    String::from_str("service_name must not be empty"),
                ),
            );
        }
        let mut name_dup = false;
        let mut j: usize = 0;
        while j < i
            invariant
                j <= i,
                i < svcs.len(),
                svcs == document.services.deep_view(),
                service_name@ == trim_of(svcs[i as int].service_name),
                name_dup == (exists|t: int|
                    0 <= t < j && trim_of(svcs[t].service_name) == trim_of(
                        svcs[i as int].service_name,
                    )),
            decreases i - j,
        {
            proof {
                assert(svcs[j as int] == document.services@[j as int]@);
            }
            if crate::text::str_eq(
                trim_str(document.services[j].service_name.as_str()),
                service_name,
            ) {
                name_dup = true;
            }
            j = j + 1;
        }
        if name_dup {
            let mut m = String::from_str("service_name '");
            m.append(service_name);
            m.append("' is duplicated");
            return Err(MeshRegistryError::InvalidDocument(m));
        }
        match crate::base_url::check_base_url(trim_str(service.base_url.as_str())) {
            crate::base_url::BaseUrlCheck::Rejected(parse_message) => {
                let mut m = String::from_str("service '");
                m.append(service_name);
                m.append("' base_url '");
                m.append(service.base_url.as_str());
                m.append("' is invalid: ");
                m.append(parse_message.as_str());
                return Err(MeshRegistryError::InvalidDocument(m));
            },
            crate::base_url::BaseUrlCheck::MissingHost => {
                let mut m = String::from_str("service '");
                m.append(service_name);
                m.append("' base_url '");
                m.append(service.base_url.as_str());
                m.append("' must include a host");
                return Err(MeshRegistryError::InvalidDocument(m));
            },
            crate::base_url::BaseUrlCheck::Accepted => {},
        }
        if service.api_contracts.len() == 0 {
            let mut m = String::from_str("service '");
            m.append(service_name);
            m.append("' must register at least one api contract");
            return Err(MeshRegistryError::InvalidDocument(m));
        }
        let mut k: usize = 0;
        while k < service.api_contracts.len()
            invariant
                k <= svcs[i as int].api_contracts.len(),
                i < svcs.len(),
                svcs == document.services.deep_view(),
                trim_of(document.version@).len() > 0,
                service_list_error(svcs, 0) == service_list_error(svcs, i as int),
                service@ == svcs[i as int],
                service_name@ == trim_of(svcs[i as int].service_name),
                service_name@.len() > 0,
                !service_name_duplicated(svcs, i as int),
                url_parse_outcome(trim_of(svcs[i as int].base_url)) is Ok,
                url_has_host(trim_of(svcs[i as int].base_url)),
                svcs[i as int].api_contracts.len() > 0,
                contract_list_error(svcs, i as int, 0) == contract_list_error(
                    svcs,
                    i as int,
                    k as int,
                ),
            decreases svcs[i as int].api_contracts.len() - k,
        {
            let contract = trim_str(service.api_contracts[k].as_str());
            if contract.is_empty() {
                let mut m = String::from_str("service '");
                m.append(service_name);
                m.append("' has an empty api contract entry");
                return Err(MeshRegistryError::InvalidDocument(m));
            }
            if contract_seen(&document.services, i, k, contract) {
                let mut m = String::from_str("api contract '");
                m.append(contract);
                m.append("' is registered by multiple services");
                return Err(MeshRegistryError::InvalidDocument(m));
            }
            k = k + 1;
        }
        assert(service_error(svcs, i as int) is None);
        i = i + 1;
    }
    match &document.publish_ingress_policy {
        Some(policy) => {
            let r = validate_publish_ingress_policy(policy);
            r
        },
        None => Ok(()),
    }
}

} // verus!
