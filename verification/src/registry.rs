//! The registry: a validated document snapshot plus an index from trimmed
//! contract identifier to owning service, built once at construction and
//! never mutated afterwards.

use vstd::prelude::*;
use vstd::string::StringExecFns;

use crate::error::MeshRegistryError;
use crate::models::PublishIngressHopRuntimeLimit;
use crate::models::PublishIngressHopRuntimeLimitView;
use crate::models::PublishIngressPolicy;
use crate::models::PublishIngressPolicyView;
use crate::models::PublishIngressRequiredHop;
use crate::models::ResolvedServiceTarget;
use crate::models::ServiceMeshRegistryDocument;
use crate::models::ServiceMeshRegistryDocumentView;
use crate::models::ServiceRegistration;
use crate::models::ServiceRegistrationView;
use crate::text::insert_sorted_unique;
use crate::text::parse_u64_str;
use crate::text::parse_u64_of;
use crate::text::seq_sorted_strict;
use crate::text::str_eq;
use crate::text::trim_of;
use crate::text::trim_str;
use crate::validation::document_error;
use crate::validation::document_valid;
use crate::validation::validate_registry_document;

verus! {

/// Whether service `s` owns the trimmed contract identifier `c`.
pub open spec fn service_owns_contract(s: ServiceRegistrationView, c: Seq<char>) -> bool {
    exists|k: int| 0 <= k < s.api_contracts.len() && trim_of(s.api_contracts[k]) == c
}

/// Whether any service in the list owns the trimmed contract identifier `c`.
pub open spec fn contract_registered(services: Seq<ServiceRegistrationView>, c: Seq<char>) -> bool {
    exists|i: int| 0 <= i < services.len() && service_owns_contract(services[i], c)
}

/// Whether some entry of a required-contract list trims to the empty string.
pub open spec fn any_required_contract_blank(required: Seq<Seq<char>>) -> bool {
    exists|i: int| 0 <= i < required.len() && trim_of(required[i]).len() == 0
}

/// Whether every entry of a required-contract list is owned by some service.
pub open spec fn all_required_registered(
    services: Seq<ServiceRegistrationView>,
    required: Seq<Seq<char>>,
) -> bool {
    forall|i: int| 0 <= i < required.len() ==> contract_registered(services, trim_of(required[i]))
}

/// The trimmed entries among the first `n` of the required list that no
/// service owns.
pub open spec fn missing_before(
    services: Seq<ServiceRegistrationView>,
    required: Seq<Seq<char>>,
    n: int,
) -> Set<Seq<char>> {
    Set::new(
        |c: Seq<char>|
            exists|i: int|
                0 <= i < n && trim_of(required[i]) == c && !contract_registered(services, c),
    )
}

/// The trimmed entries of the required list that no service owns.
pub open spec fn missing_required_contracts(
    services: Seq<ServiceRegistrationView>,
    required: Seq<Seq<char>>,
) -> Set<Seq<char>> {
    missing_before(services, required, required.len() as int)
}

/// Whether the policy declares a hop whose trimmed name is `name`.
pub open spec fn policy_defines_hop(p: PublishIngressPolicyView, name: Seq<char>) -> bool {
    exists|i: int| 0 <= i < p.required_hops.len() && trim_of(p.required_hops[i].hop_name) == name
}

/// The limit the input assigns to the hop named `name` (trimmed): the last
/// entry with that trimmed name wins.
pub open spec fn configured_limit_for(
    limits: Seq<PublishIngressHopRuntimeLimitView>,
    name: Seq<char>,
) -> Option<u64>
    decreases limits.len(),
{
    if limits.len() == 0 {
        None
    } else if trim_of(limits.last().hop_name) == name {
        Some(limits.last().configured_max_body_bytes)
    } else {
        configured_limit_for(limits.drop_last(), name)
    }
}

/// Whether the input limits cover required hop `i` with a limit at or above
/// the policy floor.
pub open spec fn hop_conforms(
    p: PublishIngressPolicyView,
    limits: Seq<PublishIngressHopRuntimeLimitView>,
    i: int,
) -> bool {
    match configured_limit_for(limits, trim_of(p.required_hops[i].hop_name)) {
        Some(v) => v >= p.default_max_body_bytes,
        None => false,
    }
}

/// The first required hop at position `i` or later that the input limits do
/// not cover at the policy floor, if any.
pub open spec fn first_nonconforming_hop(
    p: PublishIngressPolicyView,
    limits: Seq<PublishIngressHopRuntimeLimitView>,
    i: int,
) -> Option<int>
    decreases p.required_hops.len() - i,
{
    if i < 0 || i >= p.required_hops.len() {
        None
    } else if !hop_conforms(p, limits, i) {
        Some(i)
    } else {
        first_nonconforming_hop(p, limits, i + 1)
    }
}

/// The document a `single_service` registry is built from.
pub open spec fn single_service_document(
    version: Seq<char>,
    service_name: Seq<char>,
    base_url: Seq<char>,
    api_contracts: Seq<Seq<char>>,
) -> ServiceMeshRegistryDocumentView {
    ServiceMeshRegistryDocumentView {
        version: version,
        services: seq![
            ServiceRegistrationView {
                service_name: service_name,
                base_url: base_url,
                api_contracts: api_contracts,
            },
        ],
        publish_ingress_policy: None,
    }
}

fn lookup_configured_limit(limits: &Vec<PublishIngressHopRuntimeLimit>, name: &str) -> (r: Option<
    u64,
>)
    ensures
        r == configured_limit_for(limits.deep_view(), name@),
{
    let ghost lims = limits.deep_view();
    proof {
        assert(lims.take(lims.len() as int) =~= lims);
    }
    let mut t: usize = limits.len();
    while t > 0
        invariant
            t <= lims.len(),
            lims == limits.deep_view(),
            configured_limit_for(lims, name@) == configured_limit_for(lims.take(t as int), name@),
        decreases t,
    {
        proof {
            assert(lims[t - 1] == limits@[t - 1]@);
            assert(lims.take(t as int).last() == lims[t - 1]);
            assert(lims.take(t as int).drop_last() =~= lims.take(t - 1));
        }
        if str_eq(trim_str(limits[t - 1].hop_name.as_str()), name) {
            return Some(limits[t - 1].configured_max_body_bytes);
        }
        t = t - 1;
    }
    None
}

#[derive(Clone, Debug)]
struct ContractIndexEntry {
    contract: String,
    service_index: usize,
}

spec fn index_has(entries: Seq<ContractIndexEntry>, c: Seq<char>, i: int) -> bool {
    exists|t: int|
        0 <= t < entries.len() && entries[t].contract@ == c && entries[t].service_index == i
}

proof fn lemma_index_has_extend(
    pre: Seq<ContractIndexEntry>,
    post: Seq<ContractIndexEntry>,
    c: Seq<char>,
    i: int,
)
    requires
        index_has(pre, c, i),
        pre.len() <= post.len(),
        forall|t: int| 0 <= t < pre.len() ==> post[t] == pre[t],
    ensures
        index_has(post, c, i),
{
    let t0 = choose|t: int|
        0 <= t < pre.len() && pre[t].contract@ == c && pre[t].service_index == i;
    assert(post[t0].contract@ == c && post[t0].service_index == i);
}

/// A validated, query-only authority over one registry document.
#[derive(Debug)]
pub struct ServiceMeshRegistry {
    version: String,
    services: Vec<ServiceRegistration>,
    publish_ingress_policy: Option<PublishIngressPolicy>,
    api_contract_to_service_index: Vec<ContractIndexEntry>,
}

impl ServiceMeshRegistry {
    /// The document version the registry echoes back.
    pub closed spec fn spec_version(&self) -> Seq<char> {
        self.version@
    }

    /// The service registrations, in document order.
    pub closed spec fn spec_services(&self) -> Seq<ServiceRegistrationView> {
        self.services.deep_view()
    }

    /// The publish-ingress policy, if the document declared one.
    pub closed spec fn spec_policy(&self) -> Option<PublishIngressPolicyView> {
        match self.publish_ingress_policy {
            Some(p) => Some(p@),
            None => None,
        }
    }

    /// The document this registry is a snapshot of.
    pub open spec fn spec_document(&self) -> ServiceMeshRegistryDocumentView {
        ServiceMeshRegistryDocumentView {
            version: self.spec_version(),
            services: self.spec_services(),
            publish_ingress_policy: self.spec_policy(),
        }
    }

    #[verifier::type_invariant]
    spec fn wf(self) -> bool {
        &&& document_valid(self.spec_document())
        &&& forall|t: int|
            0 <= t < self.api_contract_to_service_index@.len() ==> {
                let e = #[trigger] self.api_contract_to_service_index@[t];
                e.service_index < self.services.deep_view().len() && service_owns_contract(
                    self.services.deep_view()[e.service_index as int],
                    e.contract@,
                )
            }
        &&& forall|i: int, k: int|
            0 <= i < self.services.deep_view().len() && 0 <= k
                < self.services.deep_view()[i].api_contracts.len() ==> index_has(
                self.api_contract_to_service_index@,
                trim_of(#[trigger] self.services.deep_view()[i].api_contracts[k]),
                i,
            )
    }

    /// Validates the document and, on success, takes ownership of it and
    /// builds the contract index.
    pub fn from_document(document: ServiceMeshRegistryDocument) -> (r: Result<
        Self,
        MeshRegistryError,
    >)
        ensures
            (r is Ok) == document_valid(document@),
            r is Ok ==> r->Ok_0.spec_document() == document@,
            r is Err ==> (r->Err_0 matches MeshRegistryError::InvalidDocument(m) && (
            document_error(document@) matches Some(em) && m@ == em)),
    {
        match validate_registry_document(&document) {
            Err(e) => Err(e),
            Ok(()) => {
                let ghost svcs = document.services.deep_view();
                let mut index: Vec<ContractIndexEntry> = Vec::new();
                let mut i: usize = 0;
                while i < document.services.len()
                    invariant
                        i <= svcs.len(),
                        svcs == document.services.deep_view(),
                        forall|t: int|
                            0 <= t < index@.len() ==> {
                                let e = #[trigger] index@[t];
                                e.service_index < svcs.len() && service_owns_contract(
                                    svcs[e.service_index as int],
                                    e.contract@,
                                )
                            },
                        forall|a: int, b: int|
                            0 <= a < i && 0 <= b < svcs[a].api_contracts.len() ==> index_has(
                                index@,
                                trim_of(#[trigger] svcs[a].api_contracts[b]),
                                a,
                            ),
                    decreases svcs.len() - i,
                {
                    let mut k: usize = 0;
                    while k < document.services[i].api_contracts.len()
                        invariant
                            i < svcs.len(),
                            k <= svcs[i as int].api_contracts.len(),
                            svcs == document.services.deep_view(),
                            forall|t: int|
                                0 <= t < index@.len() ==> {
                                    let e = #[trigger] index@[t];
                                    e.service_index < svcs.len() && service_owns_contract(
                                        svcs[e.service_index as int],
                                        e.contract@,
                                    )
                                },
                            forall|a: int, b: int|
                                0 <= a < i && 0 <= b < svcs[a].api_contracts.len() ==> index_has(
                                    index@,
                                    trim_of(#[trigger] svcs[a].api_contracts[b]),
                                    a,
                                ),
                            forall|b: int|
                                0 <= b < k ==> index_has(
                                    index@,
                                    trim_of(#[trigger] svcs[i as int].api_contracts[b]),
                                    i as int,
                                ),
                        decreases svcs[i as int].api_contracts.len() - k,
                    {
                        proof {
                            assert(svcs[i as int] == document.services@[i as int]@);
                            assert(svcs[i as int].api_contracts[k as int]
                                == document.services@[i as int].api_contracts@[k as int]@);
                        }
                        let key = trim_str(document.services[i].api_contracts[k].as_str());
                        let ghost pre = index@;
                        index.push(
                            ContractIndexEntry { contract: key.to_owned(), service_index: i },
                        );
                        proof {
                            assert(service_owns_contract(
                                svcs[i as int],
                                trim_of(svcs[i as int].api_contracts[k as int]),
                            ));
                            assert forall|a: int, b: int|
                                0 <= a < i && 0 <= b < svcs[a].api_contracts.len() implies index_has(
                                index@,
                                trim_of(#[trigger] svcs[a].api_contracts[b]),
                                a,
                            ) by {
                                lemma_index_has_extend(
                                    pre,
                                    index@,
                                    trim_of(svcs[a].api_contracts[b]),
                                    a,
                                );
                            }
                            assert forall|b: int| 0 <= b < k + 1 implies index_has(
                                index@,
                                trim_of(#[trigger] svcs[i as int].api_contracts[b]),
                                i as int,
                            ) by {
                                if b < k {
                                    lemma_index_has_extend(
                                        pre,
                                        index@,
                                        trim_of(svcs[i as int].api_contracts[b]),
                                        i as int,
                                    );
                                } else {
                                    assert(index@[pre.len() as int].contract@ == trim_of(
                                        svcs[i as int].api_contracts[k as int],
                                    ));
                                }
                            }
                        }
                        k = k + 1;
                    }
                    i = i + 1;
                }
                Ok(
                    ServiceMeshRegistry {
                        version: document.version,
                        services: document.services,
                        publish_ingress_policy: document.publish_ingress_policy,
                        api_contract_to_service_index: index,
                    },
                )
            },
        }
    }

    /// The version stamp of the underlying document.
    pub fn version(&self) -> (r: &str)
        ensures
            r@ == self.spec_version(),
    {
        self.version.as_str()
    }

    /// Looks the (already trimmed) contract key up in the index.
    fn lookup_contract(&self, needle: &str) -> (r: Option<usize>)
        ensures
            (r is Some) == contract_registered(self.spec_services(), needle@),
            r matches Some(i) ==> i < self.spec_services().len() && service_owns_contract(
                self.spec_services()[i as int],
                needle@,
            ),
    {
        proof {
            use_type_invariant(&*self);
        }
        let ghost entries = self.api_contract_to_service_index@;
        let mut t: usize = 0;
        while t < self.api_contract_to_service_index.len()
            invariant
                t <= entries.len(),
                entries == self.api_contract_to_service_index@,
                forall|u: int| 0 <= u < t ==> entries[u].contract@ != needle@,
                forall|u: int|
                    0 <= u < entries.len() ==> {
                        let e = #[trigger] entries[u];
                        e.service_index < self.services.deep_view().len() && service_owns_contract(
                            self.services.deep_view()[e.service_index as int],
                            e.contract@,
                        )
                    },
                forall|i: int, k: int|
                    0 <= i < self.services.deep_view().len() && 0 <= k
                        < self.services.deep_view()[i].api_contracts.len() ==> index_has(
                        entries,
                        trim_of(#[trigger] self.services.deep_view()[i].api_contracts[k]),
                        i,
                    ),
            decreases entries.len() - t,
        {
            if str_eq(self.api_contract_to_service_index[t].contract.as_str(), needle) {
                return Some(self.api_contract_to_service_index[t].service_index);
            }
            t = t + 1;
        }
        proof {
            if contract_registered(self.spec_services(), needle@) {
                let i = choose|i: int|
                    0 <= i < self.spec_services().len() && service_owns_contract(
                        self.spec_services()[i],
                        needle@,
                    );
                let k = choose|k: int|
                    0 <= k < self.spec_services()[i].api_contracts.len() && trim_of(
                        self.spec_services()[i].api_contracts[k],
                    ) == needle@;
                assert(index_has(entries, trim_of(self.spec_services()[i].api_contracts[k]), i));
            }
        }
        None
    }

    /// Answers which service owns a contract: trims the query, looks it up,
    /// and returns the owning service's name and base URL together with the
    /// normalized contract identifier.
    pub fn resolve_api_contract(&self, api_contract: &str) -> (r: Result<
        ResolvedServiceTarget,
        MeshRegistryError,
    >)
        ensures
            (r is Ok) == contract_registered(self.spec_services(), trim_of(api_contract@)),
            r is Ok ==> (exists|i: int|
                0 <= i < self.spec_services().len() && #[trigger] service_owns_contract(
                    self.spec_services()[i],
                    trim_of(api_contract@),
                ) && r->Ok_0@.service_name == self.spec_services()[i].service_name
                && r->Ok_0@.base_url == self.spec_services()[i].base_url),
            r is Ok ==> r->Ok_0@.api_contract == trim_of(api_contract@),
            r is Err ==> (r->Err_0 matches MeshRegistryError::UnknownApiContract(c) && c@
                == trim_of(api_contract@)),
    {
        let normalized = trim_str(api_contract);
        match self.lookup_contract(normalized) {
            Some(service_index) => {
                proof {
                    use_type_invariant(&*self);
                    assert(self.services.deep_view()[service_index as int]
                        == self.services@[service_index as int]@);
                }
                let service = &self.services[service_index];
                Ok(
                    ResolvedServiceTarget {
                        service_name: service.service_name.clone(),
                        base_url: service.base_url.clone(),
                        api_contract: normalized.to_owned(),
                    },
                )
            },
            None => Err(MeshRegistryError::UnknownApiContract(normalized.to_owned())),
        }
    }

    /// Checks that every required contract is registered. A blank entry in
    /// the required list is a caller error; otherwise the missing contracts
    /// are reported as one sorted, duplicate-free list.
    pub fn ensure_contracts_registered(&self, required_api_contracts: &Vec<String>) -> (r: Result<
        (),
        MeshRegistryError,
    >)
        ensures
            (r is Ok) == (!any_required_contract_blank(required_api_contracts.deep_view())
                && all_required_registered(
                self.spec_services(),
                required_api_contracts.deep_view(),
            )),
            any_required_contract_blank(required_api_contracts.deep_view()) ==> (
            r->Err_0 matches MeshRegistryError::InvalidDocument(m) && m@
                == "required api contract list contains an empty value"@),
            (!any_required_contract_blank(required_api_contracts.deep_view())
                && !all_required_registered(
                self.spec_services(),
                required_api_contracts.deep_view(),
            )) ==> (r->Err_0 matches MeshRegistryError::MissingRequiredApiContracts(v) && (
            seq_sorted_strict(v.deep_view()) && (forall|c: Seq<char>|
                v.deep_view().contains(c) <==> missing_required_contracts(
                    self.spec_services(),
                    required_api_contracts.deep_view(),
                ).contains(c)))),
    {
        let ghost req = required_api_contracts.deep_view();
        let mut missing: Vec<String> = Vec::new();
        let mut i: usize = 0;
        while i < required_api_contracts.len()
            invariant
                i <= req.len(),
                req == required_api_contracts.deep_view(),
                seq_sorted_strict(missing.deep_view()),
                forall|t: int| 0 <= t < i ==> trim_of(req[t]).len() > 0,
                forall|c: Seq<char>|
                    missing.deep_view().contains(c) <==> missing_before(
                        self.spec_services(),
                        req,
                        i as int,
                    ).contains(c),
            decreases req.len() - i,
        {
            proof {
                assert(req[i as int] == required_api_contracts@[i as int]@);
            }
            let entry = trim_str(required_api_contracts[i].as_str());
            if entry.is_empty() {
                return Err(
                    MeshRegistryError::InvalidDocument(
                        String::from_str("required api contract list contains an empty value"),
                    ),
                );
            }
            let ghost pre_missing = missing.deep_view();
            match self.lookup_contract(entry) {
                Some(_) => {},
                None => {
                    insert_sorted_unique(&mut missing, entry);
                },
            }
            proof {
                assert forall|c: Seq<char>|
                    missing.deep_view().contains(c) implies missing_before(
                    self.spec_services(),
                    req,
                    i + 1,
                ).contains(c) by {
                    if pre_missing.contains(c) {
                        assert(missing_before(self.spec_services(), req, i as int).contains(c));
                        let t = choose|t: int|
                            0 <= t < i && trim_of(req[t]) == c && !contract_registered(
                                self.spec_services(),
                                c,
                            );
                        assert(0 <= t < i + 1 && trim_of(req[t]) == c);
                    } else {
                        assert(c == entry@ && !contract_registered(self.spec_services(), c));
                        assert(trim_of(req[i as int]) == c);
                    }
                }
                assert forall|c: Seq<char>|
                    missing_before(self.spec_services(), req, i + 1).contains(
                        c,
                    ) implies missing.deep_view().contains(c) by {
                    let t = choose|t: int|
                        0 <= t < i + 1 && trim_of(req[t]) == c && !contract_registered(
                            self.spec_services(),
                            c,
                        );
                    if t < i {
                        assert(missing_before(self.spec_services(), req, i as int).contains(c));
                    }
                }
            }
            i = i + 1;
        }
        proof {
            assert(missing_before(self.spec_services(), req, req.len() as int)
                == missing_required_contracts(self.spec_services(), req));
        }
        if missing.len() == 0 {
            proof {
                assert forall|t: int|
                    0 <= t < req.len() implies contract_registered(
                    self.spec_services(),
                    trim_of(req[t]),
                ) by {
                    if !contract_registered(self.spec_services(), trim_of(req[t])) {
                        assert(missing_required_contracts(self.spec_services(), req).contains(
                            trim_of(req[t]),
                        ));
                        assert(missing.deep_view().contains(trim_of(req[t])));
                    }
                }
            }
            Ok(())
        } else {
            proof {
                assert(missing.deep_view().contains(missing.deep_view()[0]));
                let c0 = missing.deep_view()[0];
                let t = choose|t: int|
                    0 <= t < req.len() && trim_of(req[t]) == c0 && !contract_registered(
                        self.spec_services(),
                        c0,
                    );
                assert(!contract_registered(self.spec_services(), trim_of(req[t])));
            }
            Err(MeshRegistryError::MissingRequiredApiContracts(missing))
        }
    }

    /// The declared publish-ingress policy, if any; a read-only accessor.
    pub fn publish_ingress_policy(&self) -> (r: Option<&PublishIngressPolicy>)
        ensures
            (r is Some) == (self.spec_policy() is Some),
            r matches Some(p) ==> (self.spec_policy() matches Some(pv) && p@ == pv),
    {
        self.document_publish_ingress_policy()
    }

    fn document_publish_ingress_policy(&self) -> (r: Option<&PublishIngressPolicy>)
        ensures
            (r is Some) == (self.spec_policy() is Some),
            r matches Some(p) ==> (self.spec_policy() matches Some(pv) && p@ == pv),
    {
        self.publish_ingress_policy.as_ref()
    }

    fn require_publish_ingress_policy(&self) -> (r: Result<
        &PublishIngressPolicy,
        MeshRegistryError,
    >)
        ensures
            (r is Ok) == (self.spec_policy() is Some),
            r matches Ok(p) ==> (self.spec_policy() matches Some(pv) && p@ == pv),
            r is Err ==> r->Err_0 matches MeshRegistryError::MissingPublishIngressPolicy,
    {
        match self.document_publish_ingress_policy() {
            Some(p) => Ok(p),
            None => Err(MeshRegistryError::MissingPublishIngressPolicy),
        }
    }

    /// Finds the required hop whose trimmed name matches the (trimmed)
    /// query.
    fn resolve_publish_ingress_required_hop(&self, hop_name: &str) -> (r: Result<
        &PublishIngressRequiredHop,
        MeshRegistryError,
    >)
        ensures
            self.spec_policy() is None ==> (r is Err
                && r->Err_0 matches MeshRegistryError::MissingPublishIngressPolicy),
            self.spec_policy() matches Some(p) ==> {
                &&& (r is Ok) == policy_defines_hop(p, trim_of(hop_name@))
                &&& (r matches Ok(h) ==> (exists|i: int|
                    0 <= i < p.required_hops.len() && h@ == #[trigger] p.required_hops[i]
                        && trim_of(p.required_hops[i].hop_name) == trim_of(hop_name@)))
                &&& (!policy_defines_hop(p, trim_of(hop_name@)) ==> (
                r->Err_0 matches MeshRegistryError::MissingPublishIngressHop(n) && n@ == trim_of(
                    hop_name@,
                )))
            },
    {
        let normalized = trim_str(hop_name);
        let policy = match self.require_publish_ingress_policy() {
            Ok(p) => p,
            Err(e) => {
                return Err(e);
            },
        };
        let ghost hops = policy.required_hops.deep_view();
        let mut i: usize = 0;
        while i < policy.required_hops.len()
            invariant
                i <= hops.len(),
                hops == policy.required_hops.deep_view(),
                self.spec_policy() == Some(policy@),
                normalized@ == trim_of(hop_name@),
                forall|t: int| 0 <= t < i ==> trim_of(hops[t].hop_name) != normalized@,
            decreases hops.len() - i,
        {
            proof {
                assert(hops[i as int] == policy.required_hops@[i as int]@);
            }
            if str_eq(trim_str(policy.required_hops[i].hop_name.as_str()), normalized) {
                proof {
                    assert(trim_of(policy@.required_hops[i as int].hop_name) == trim_of(
                        hop_name@,
                    ));
                }
                return Ok(&policy.required_hops[i]);
            }
            i = i + 1;
        }
        Err(MeshRegistryError::MissingPublishIngressHop(normalized.to_owned()))
    }

    /// Checks one hop's configured limit against the policy floor: the check
    /// passes exactly when the limit is at least `default_max_body_bytes`.
    pub fn ensure_publish_ingress_hop_limit(
        &self,
        hop_name: &str,
        configured_max_body_bytes: u64,
    ) -> (r: Result<(), MeshRegistryError>)
        ensures
            self.spec_policy() is None ==> (r is Err
                && r->Err_0 matches MeshRegistryError::MissingPublishIngressPolicy),
            self.spec_policy() matches Some(p) ==> {
                &&& !policy_defines_hop(p, trim_of(hop_name@)) ==> (r is Err
                    && (r->Err_0 matches MeshRegistryError::MissingPublishIngressHop(n) && n@
                        == trim_of(hop_name@)))
                &&& policy_defines_hop(p, trim_of(hop_name@)) ==> ((r is Ok) == (
                configured_max_body_bytes >= p.default_max_body_bytes))
                &&& (policy_defines_hop(p, trim_of(hop_name@)) && configured_max_body_bytes
                    < p.default_max_body_bytes) ==> (
                r->Err_0 matches MeshRegistryError::PublishIngressHopLimitTooLow {
                    hop_name: h,
                    configured_max_body_bytes: c,
                    required_min_body_bytes: q,
                } && (h@ == trim_of(hop_name@) && c == configured_max_body_bytes && q
                    == p.default_max_body_bytes))
            },
    {
        match self.resolve_publish_ingress_required_hop(hop_name) {
            Ok(_) => {},
            Err(e) => {
                return Err(e);
            },
        }
        let policy = match self.require_publish_ingress_policy() {
            Ok(p) => p,
            Err(e) => {
                return Err(e);
            },
        };
        if configured_max_body_bytes < policy.default_max_body_bytes {
            return Err(
                MeshRegistryError::PublishIngressHopLimitTooLow {
                    hop_name: trim_str(hop_name).to_owned(),
                    configured_max_body_bytes: configured_max_body_bytes,
                    required_min_body_bytes: policy.default_max_body_bytes,
                },
            );
        }
        Ok(())
    }

    /// Resolves a hop's runtime limit from the value its limit environment
    /// variable carried, then holds it to the policy floor. `None` stands
    /// for a variable that was not set.
    pub fn ensure_publish_ingress_hop_limit_from_value(
        &self,
        hop_name: &str,
        configured_value: Option<&str>,
    ) -> (r: Result<PublishIngressHopRuntimeLimit, MeshRegistryError>)
        ensures
            self.spec_policy() is None ==> (r is Err
                && r->Err_0 matches MeshRegistryError::MissingPublishIngressPolicy),
            self.spec_policy() matches Some(p) ==> {
                &&& !policy_defines_hop(p, trim_of(hop_name@)) ==> (r is Err
                    && (r->Err_0 matches MeshRegistryError::MissingPublishIngressHop(n2) && n2@
                        == trim_of(hop_name@)))
                &&& (policy_defines_hop(p, trim_of(hop_name@)) && configured_value is None) ==> (
                r is Err && (exists|i: int|
                    0 <= i < p.required_hops.len() && trim_of(
                        #[trigger] p.required_hops[i].hop_name,
                    ) == trim_of(hop_name@)
                        && (r->Err_0 matches MeshRegistryError::MissingPublishIngressHopLimit {
                        hop_name: h,
                        env_var: e,
                    } && (h@ == p.required_hops[i].hop_name && e@
                        == p.required_hops[i].max_body_bytes_env_var))))
                &&& configured_value matches Some(v) ==> {
                    &&& (policy_defines_hop(p, trim_of(hop_name@)) && parse_u64_of(v@) is None)
                        ==> (r is Err && (exists|i: int|
                        0 <= i < p.required_hops.len() && trim_of(
                            #[trigger] p.required_hops[i].hop_name,
                        ) == trim_of(hop_name@)
                            && (r->Err_0 matches MeshRegistryError::InvalidPublishIngressHopLimit {
                            hop_name: h,
                            env_var: e,
                            value: raw,
                        } && (h@ == p.required_hops[i].hop_name && e@
                            == p.required_hops[i].max_body_bytes_env_var && raw@ == v@))))
                    &&& parse_u64_of(v@) matches Some(n) ==> {
                        &&& (policy_defines_hop(p, trim_of(hop_name@)) && n
                            < p.default_max_body_bytes) ==> (
                        r->Err_0 matches MeshRegistryError::PublishIngressHopLimitTooLow {
                            hop_name: h,
                            configured_max_body_bytes: c,
                            required_min_body_bytes: q,
                        } && (h@ == trim_of(hop_name@) && c == n && q == p.default_max_body_bytes))
                        &&& (policy_defines_hop(p, trim_of(hop_name@)) && n
                            >= p.default_max_body_bytes) ==> (r matches Ok(limit) && (exists|i: int|
                            0 <= i < p.required_hops.len() && trim_of(
                                #[trigger] p.required_hops[i].hop_name,
                            ) == trim_of(hop_name@) && limit@.hop_name
                                == p.required_hops[i].hop_name && limit@.configured_max_body_bytes
                                == n))
                        &&& (r is Ok) == (policy_defines_hop(p, trim_of(hop_name@)) && n
                            >= p.default_max_body_bytes)
                    }
                    &&& r is Ok ==> parse_u64_of(v@) is Some
                }
                &&& r is Ok ==> (policy_defines_hop(p, trim_of(hop_name@))
                    && configured_value is Some)
            },
    {
        let required_hop = match self.resolve_publish_ingress_required_hop(hop_name) {
            Ok(h) => h,
            Err(e) => {
                return Err(e);
            },
        };
        let raw_value = match configured_value {
            Some(v) => v,
            None => {
                return Err(
                    MeshRegistryError::MissingPublishIngressHopLimit {
                        hop_name: required_hop.hop_name.clone(),
                        env_var: required_hop.max_body_bytes_env_var.clone(),
                    },
                );
            },
        };
        let parsed_limit = match parse_u64_str(raw_value) {
            Some(n) => n,
            None => {
                return Err(
                    MeshRegistryError::InvalidPublishIngressHopLimit {
                        hop_name: required_hop.hop_name.clone(),
                        env_var: required_hop.max_body_bytes_env_var.clone(),
                        value: raw_value.to_owned(),
                    },
                );
            },
        };
        match self.ensure_publish_ingress_hop_limit(required_hop.hop_name.as_str(), parsed_limit) {
            Ok(()) => {},
            Err(e) => {
                return Err(e);
            },
        }
        Ok(
            PublishIngressHopRuntimeLimit {
                hop_name: required_hop.hop_name.clone(),
                configured_max_body_bytes: parsed_limit,
            },
        )
    }

    /// Holds every hop the policy requires to the policy floor, against the
    /// given runtime limits (for a hop named more than once, the last entry
    /// wins). Hops in the input that the policy does not require are
    /// ignored.
    pub fn ensure_publish_ingress_all_hops_conform(
        &self,
        configured_hop_limits: &Vec<PublishIngressHopRuntimeLimit>,
    ) -> (r: Result<(), MeshRegistryError>)
        ensures
            self.spec_policy() is None ==> (r is Err
                && r->Err_0 matches MeshRegistryError::MissingPublishIngressPolicy),
            self.spec_policy() matches Some(p) ==> {
                &&& (r is Ok) == (first_nonconforming_hop(
                    p,
                    configured_hop_limits.deep_view(),
                    0,
                ) is None)
                &&& first_nonconforming_hop(
                    p,
                    configured_hop_limits.deep_view(),
                    0,
                ) matches Some(i) ==> {
                    &&& configured_limit_for(
                        configured_hop_limits.deep_view(),
                        trim_of(p.required_hops[i].hop_name),
                    ) is None ==> (
                    r->Err_0 matches MeshRegistryError::MissingPublishIngressHopLimit {
                        hop_name: h,
                        env_var: e,
                    } && (h@ == p.required_hops[i].hop_name && e@
                        == p.required_hops[i].max_body_bytes_env_var))
                    &&& configured_limit_for(
                        configured_hop_limits.deep_view(),
                        trim_of(p.required_hops[i].hop_name),
                    ) matches Some(v) ==> (
                    r->Err_0 matches MeshRegistryError::PublishIngressHopLimitTooLow {
                        hop_name: h,
                        configured_max_body_bytes: c,
                        required_min_body_bytes: q,
                    } && (h@ == trim_of(p.required_hops[i].hop_name) && c == v && q
                        == p.default_max_body_bytes))
                }
            },
    {
        let policy = match self.require_publish_ingress_policy() {
            Ok(p) => p,
            Err(e) => {
                return Err(e);
            },
        };
        let ghost p = policy@;
        let ghost lims = configured_hop_limits.deep_view();
        let mut i: usize = 0;
        while i < policy.required_hops.len()
            invariant
                i <= p.required_hops.len(),
                p == policy@,
                self.spec_policy() == Some(p),
                lims == configured_hop_limits.deep_view(),
                first_nonconforming_hop(p, lims, 0) == first_nonconforming_hop(p, lims, i as int),
            decreases p.required_hops.len() - i,
        {
            proof {
                assert(p.required_hops[i as int] == policy.required_hops@[i as int]@);
            }
            let hop = &policy.required_hops[i];
            let trimmed_hop_name = trim_str(hop.hop_name.as_str());
            match lookup_configured_limit(configured_hop_limits, trimmed_hop_name) {
                None => {
                    return Err(
                        MeshRegistryError::MissingPublishIngressHopLimit {
                            hop_name: hop.hop_name.clone(),
                            env_var: hop.max_body_bytes_env_var.clone(),
                        },
                    );
                },
                Some(v) => {
                    if v < policy.default_max_body_bytes {
                        return Err(
                            MeshRegistryError::PublishIngressHopLimitTooLow {
                                hop_name: trimmed_hop_name.to_owned(),
                                configured_max_body_bytes: v,
                                required_min_body_bytes: policy.default_max_body_bytes,
                            },
                        );
                    }
                },
            }
            i = i + 1;
        }
        Ok(())
    }

    /// Builds a registry around one literal service registration, with no
    /// publish-ingress policy.
    pub fn single_service(
        version: &str,
        service_name: &str,
        base_url: &str,
        api_contracts: Vec<String>,
    ) -> (r: Result<Self, MeshRegistryError>)
        ensures
            (r is Ok) == document_valid(
                single_service_document(
                    version@,
                    service_name@,
                    base_url@,
                    api_contracts.deep_view(),
                ),
            ),
            r is Ok ==> r->Ok_0.spec_document() == single_service_document(
                version@,
                service_name@,
                base_url@,
                api_contracts.deep_view(),
            ),
            r is Err ==> (r->Err_0 matches MeshRegistryError::InvalidDocument(m) && (
            document_error(
                single_service_document(
                    version@,
                    service_name@,
                    base_url@,
                    api_contracts.deep_view(),
                ),
            ) matches Some(em) && m@ == em)),
    {
        let ghost target = single_service_document(
            version@,
            service_name@,
            base_url@,
            api_contracts.deep_view(),
        );
        let document = ServiceMeshRegistryDocument {
            version: version.to_owned(),
            services: vec![
                ServiceRegistration {
                    service_name: service_name.to_owned(),
                    base_url: base_url.to_owned(),
                    api_contracts: api_contracts,
                },
            ],
            publish_ingress_policy: None,
        };
        proof {
            assert(document@.services =~= target.services);
            assert(document@ == target);
        }
        Self::from_document(document)
    }

    /// Uses the registry the environment yielded when there is one, and
    /// otherwise falls back to a literal single-service registry.
    pub fn from_environment_or_single_service(
        environment_registry: Option<Self>,
        version: &str,
        service_name: &str,
        base_url: &str,
        api_contracts: Vec<String>,
    ) -> (r: Result<Self, MeshRegistryError>)
        ensures
            environment_registry matches Some(reg) ==> (r matches Ok(out) && out == reg),
            environment_registry is None ==> ((r is Ok) == document_valid(
                single_service_document(
                    version@,
                    service_name@,
                    base_url@,
                    api_contracts.deep_view(),
                ),
            )),
            (environment_registry is None && r is Ok) ==> r->Ok_0.spec_document()
                == single_service_document(
                version@,
                service_name@,
                base_url@,
                api_contracts.deep_view(),
            ),
            (environment_registry is None && r is Err) ==> (
            r->Err_0 matches MeshRegistryError::InvalidDocument(m) && (document_error(
                single_service_document(
                    version@,
                    service_name@,
                    base_url@,
                    api_contracts.deep_view(),
                ),
            ) matches Some(em) && m@ == em)),
    {
        match environment_registry {
            Some(registry) => Ok(registry),
            None => Self::single_service(version, service_name, base_url, api_contracts),
        }
    }
}

} // verus!
