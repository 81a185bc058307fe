//! Document-level consequences of admissibility, stated as proof functions:
//! what a caller may conclude about resolution and bulk contract checks on
//! any registry built from a valid document.

use vstd::prelude::*;

use crate::models::ServiceMeshRegistryDocumentView;
use crate::models::ServiceRegistrationView;
use crate::registry::all_required_registered;
use crate::registry::any_required_contract_blank;
use crate::registry::contract_registered;
use crate::registry::service_owns_contract;
use crate::text::lex_lt;
use crate::text::lemma_lex_le_antisymmetric;
use crate::text::seq_sorted_strict;
use crate::text::trim_of;
use crate::registry::policy_defines_hop;
use crate::models::PublishIngressPolicyView;
use crate::models::PublishIngressRequiredHopView;
use crate::validation::contract_list_error;
use crate::validation::contract_seen_before;
use crate::validation::document_valid;
use crate::validation::hop_list_error;
use crate::validation::hop_name_duplicated;
use crate::validation::policy_error;
use crate::validation::service_error;
use crate::validation::service_list_error;

verus! {

proof fn lemma_service_list_error_none_all(services: Seq<ServiceRegistrationView>, t: int)
    requires
        0 <= t,
        service_list_error(services, t) is None,
    ensures
        forall|i: int| t <= i < services.len() ==> service_error(services, i) is None,
    decreases services.len() - t,
{
    if t < services.len() {
        lemma_service_list_error_none_all(services, t + 1);
    }
}

proof fn lemma_contract_list_error_none_all(services: Seq<ServiceRegistrationView>, i: int, t: int)
    requires
        0 <= i < services.len(),
        0 <= t,
        contract_list_error(services, i, t) is None,
    ensures
        forall|k: int|
            t <= k < services[i].api_contracts.len() ==> trim_of(
                services[i].api_contracts[k],
            ).len() > 0,
        forall|k: int|
            t <= k < services[i].api_contracts.len() ==> !contract_seen_before(
                services,
                i,
                k,
                trim_of(#[trigger] services[i].api_contracts[k]),
            ),
    decreases services[i].api_contracts.len() - t,
{
    if t < services[i].api_contracts.len() {
        lemma_contract_list_error_none_all(services, i, t + 1);
    }
}

/// In a valid document every declared contract is non-blank after trimming,
/// and no two positions in the document declare trim-equal contracts.
pub proof fn lemma_valid_document_contracts(d: ServiceMeshRegistryDocumentView)
    requires
        document_valid(d),
    ensures
        forall|i: int, k: int|
            0 <= i < d.services.len() && 0 <= k < d.services[i].api_contracts.len() ==> trim_of(
                #[trigger] d.services[i].api_contracts[k],
            ).len() > 0,
        forall|i: int, k: int, j: int, l: int|
            0 <= i < d.services.len() && 0 <= k < d.services[i].api_contracts.len() && 0 <= j
                < d.services.len() && 0 <= l < d.services[j].api_contracts.len() && !(i == j && k
                == l) ==> trim_of(#[trigger] d.services[i].api_contracts[k]) != trim_of(
                #[trigger] d.services[j].api_contracts[l],
            ),
{
    lemma_service_list_error_none_all(d.services, 0);
    assert forall|i: int|
        0 <= i < d.services.len() implies contract_list_error(d.services, i, 0) is None by {
        assert(service_error(d.services, i) is None);
    }
    assert forall|i: int, k: int|
        0 <= i < d.services.len() && 0 <= k < d.services[i].api_contracts.len() implies trim_of(
        #[trigger] d.services[i].api_contracts[k],
    ).len() > 0 by {
        lemma_contract_list_error_none_all(d.services, i, 0);
    }
    assert forall|i: int, k: int, j: int, l: int|
        0 <= i < d.services.len() && 0 <= k < d.services[i].api_contracts.len() && 0 <= j
            < d.services.len() && 0 <= l < d.services[j].api_contracts.len() && !(i == j && k
            == l) implies trim_of(#[trigger] d.services[i].api_contracts[k]) != trim_of(
        #[trigger] d.services[j].api_contracts[l],
    ) by {
        lemma_contract_list_error_none_all(d.services, i, 0);
        lemma_contract_list_error_none_all(d.services, j, 0);
        if trim_of(d.services[i].api_contracts[k]) == trim_of(d.services[j].api_contracts[l]) {
            if i < j {
                assert(contract_seen_before(
                    d.services,
                    j,
                    l,
                    trim_of(d.services[j].api_contracts[l]),
                ));
            } else if j < i {
                assert(contract_seen_before(
                    d.services,
                    i,
                    k,
                    trim_of(d.services[i].api_contracts[k]),
                ));
            } else if k < l {
                assert(contract_seen_before(
                    d.services,
                    j,
                    l,
                    trim_of(d.services[j].api_contracts[l]),
                ));
            } else {
                assert(contract_seen_before(
                    d.services,
                    i,
                    k,
                    trim_of(d.services[i].api_contracts[k]),
                ));
            }
        }
    }
}

/// In a valid document each trimmed contract has exactly one owner: any
/// query string that is trim-equal to a declared contract of service `i`
/// resolves, and only to service `i`.
pub proof fn lemma_resolve_finds_owner(
    d: ServiceMeshRegistryDocumentView,
    i: int,
    k: int,
    query: Seq<char>,
)
    requires
        document_valid(d),
        0 <= i < d.services.len(),
        0 <= k < d.services[i].api_contracts.len(),
        trim_of(query) == trim_of(d.services[i].api_contracts[k]),
    ensures
        contract_registered(d.services, trim_of(query)),
        forall|j: int|
            0 <= j < d.services.len() && #[trigger] service_owns_contract(
                d.services[j],
                trim_of(query),
            ) ==> j == i,
{
    lemma_valid_document_contracts(d);
    assert(service_owns_contract(d.services[i], trim_of(query)));
    assert forall|j: int|
        0 <= j < d.services.len() && #[trigger] service_owns_contract(
            d.services[j],
            trim_of(query),
        ) implies j == i by {
        let l = choose|l: int|
            0 <= l < d.services[j].api_contracts.len() && trim_of(d.services[j].api_contracts[l])
                == trim_of(query);
        if j != i {
            assert(trim_of(d.services[i].api_contracts[k]) != trim_of(
                d.services[j].api_contracts[l],
            ));
        }
    }
}

/// Two distinct positions in a document cannot declare trim-equal contract
/// strings in a valid document: such a document is rejected outright.
pub proof fn lemma_duplicate_contract_rejected(
    d: ServiceMeshRegistryDocumentView,
    i: int,
    k: int,
    j: int,
    l: int,
)
    requires
        0 <= i < d.services.len(),
        0 <= k < d.services[i].api_contracts.len(),
        0 <= j < d.services.len(),
        0 <= l < d.services[j].api_contracts.len(),
        !(i == j && k == l),
        trim_of(d.services[i].api_contracts[k]) == trim_of(d.services[j].api_contracts[l]),
    ensures
        !document_valid(d),
{
    if document_valid(d) {
        lemma_valid_document_contracts(d);
    }
}

/// A required list made of the registry's own declared contracts (any of
/// them, in any order and multiplicity) has no blank entry and every entry
/// registered: `ensure_contracts_registered` succeeds on it.
pub proof fn lemma_own_contracts_always_registered(
    d: ServiceMeshRegistryDocumentView,
    required: Seq<Seq<char>>,
)
    requires
        document_valid(d),
        forall|t: int|
            0 <= t < required.len() ==> exists|i: int, k: int|
                0 <= i < d.services.len() && 0 <= k < d.services[i].api_contracts.len() && trim_of(
                    #[trigger] required[t],
                ) == trim_of(d.services[i].api_contracts[k]),
    ensures
        !any_required_contract_blank(required),
        all_required_registered(d.services, required),
{
    lemma_valid_document_contracts(d);
    assert forall|t: int| 0 <= t < required.len() implies trim_of(#[trigger] required[t]).len()
        > 0 && contract_registered(d.services, trim_of(required[t])) by {
        let (i, k) = choose|i: int, k: int|
            0 <= i < d.services.len() && 0 <= k < d.services[i].api_contracts.len() && trim_of(
                required[t],
            ) == trim_of(d.services[i].api_contracts[k]);
        assert(service_owns_contract(d.services[i], trim_of(required[t])));
    }
}

/// In a valid document every declared contract is registered, so resolving
/// each of a document's own contracts never fails.
pub proof fn lemma_declared_contracts_resolve(d: ServiceMeshRegistryDocumentView)
    requires
        document_valid(d),
    ensures
        forall|i: int, k: int|
            0 <= i < d.services.len() && 0 <= k < d.services[i].api_contracts.len()
                ==> contract_registered(
                d.services,
                trim_of(#[trigger] d.services[i].api_contracts[k]),
            ),
{
    assert forall|i: int, k: int|
        0 <= i < d.services.len() && 0 <= k
            < d.services[i].api_contracts.len() implies contract_registered(
        d.services,
        trim_of(#[trigger] d.services[i].api_contracts[k]),
    ) by {
        assert(service_owns_contract(d.services[i], trim_of(d.services[i].api_contracts[k])));
    }
}

proof fn lemma_hop_list_error_none_all(hops: Seq<PublishIngressRequiredHopView>, t: int)
    requires
        0 <= t,
        hop_list_error(hops, t) is None,
    ensures
        forall|i: int|
            t <= i < hops.len() ==> trim_of(#[trigger] hops[i].hop_name).len() > 0
                && !hop_name_duplicated(hops, i),
    decreases hops.len() - t,
{
    if t < hops.len() {
        lemma_hop_list_error_none_all(hops, t + 1);
    }
}

/// A valid document's policy block, when present, passed its own checks.
pub proof fn lemma_valid_document_policy(d: ServiceMeshRegistryDocumentView)
    requires
        document_valid(d),
    ensures
        d.publish_ingress_policy matches Some(p) ==> policy_error(p) is None,
{
}

/// In an admissible policy the floor is positive and each trimmed hop name
/// names exactly one required hop: any query trim-equal to hop `i`'s name
/// resolves, and only to hop `i`.
pub proof fn lemma_policy_hop_names_unique(p: PublishIngressPolicyView)
    requires
        policy_error(p) is None,
    ensures
        p.default_max_body_bytes > 0,
        p.required_hops.len() > 0,
        forall|i: int|
            0 <= i < p.required_hops.len() ==> trim_of(#[trigger] p.required_hops[i].hop_name).len()
                > 0,
        forall|i: int, j: int|
            0 <= i < p.required_hops.len() && 0 <= j < p.required_hops.len() && i != j ==> trim_of(
                #[trigger] p.required_hops[i].hop_name,
            ) != trim_of(#[trigger] p.required_hops[j].hop_name),
{
    lemma_hop_list_error_none_all(p.required_hops, 0);
    assert forall|i: int, j: int|
        0 <= i < p.required_hops.len() && 0 <= j < p.required_hops.len() && i != j implies trim_of(
        #[trigger] p.required_hops[i].hop_name,
    ) != trim_of(#[trigger] p.required_hops[j].hop_name) by {
        if trim_of(p.required_hops[i].hop_name) == trim_of(p.required_hops[j].hop_name) {
            if i < j {
                assert(hop_name_duplicated(p.required_hops, j));
            } else {
                assert(hop_name_duplicated(p.required_hops, i));
            }
        }
    }
}

/// Any hop query trim-equal to required hop `i`'s name is defined by the
/// policy and matches no other hop.
pub proof fn lemma_hop_query_finds_hop(p: PublishIngressPolicyView, i: int, query: Seq<char>)
    requires
        policy_error(p) is None,
        0 <= i < p.required_hops.len(),
        trim_of(query) == trim_of(p.required_hops[i].hop_name),
    ensures
        policy_defines_hop(p, trim_of(query)),
        forall|j: int|
            0 <= j < p.required_hops.len() && trim_of(#[trigger] p.required_hops[j].hop_name)
                == trim_of(query) ==> j == i,
{
    lemma_policy_hop_names_unique(p);
}

/// A strictly sorted sequence is determined by its set of members: the
/// missing-contracts list is therefore the same whatever the order or
/// multiplicity of the required input, as long as the missing set is.
pub proof fn lemma_sorted_unique_canonical(a: Seq<Seq<char>>, b: Seq<Seq<char>>)
    requires
        seq_sorted_strict(a),
        seq_sorted_strict(b),
        forall|c: Seq<char>| a.contains(c) <==> b.contains(c),
    ensures
        a == b,
    decreases a.len(),
{
    if a.len() == 0 {
        if b.len() > 0 {
            assert(b.contains(b[0]));
            assert(a.contains(b[0]));
        }
        assert(a =~= b);
    } else {
        assert(a.contains(a[0]));
        assert(b.contains(a[0]));
        assert(b.len() > 0);
        assert(b.contains(b[0]));
        assert(a.contains(b[0]));
        let j = choose|j: int| 0 <= j < b.len() && b[j] == a[0];
        let m = choose|m: int| 0 <= m < a.len() && a[m] == b[0];
        if j > 0 && m > 0 {
            assert(lex_lt(b[0], b[j]));
            assert(lex_lt(a[0], a[m]));
            lemma_lex_le_antisymmetric(a[0], b[0]);
        } else if j > 0 {
            assert(a[0] == a[m]);
        } else {
            assert(a[0] == b[j]);
        }
        assert(a[0] == b[0]);
        let at = a.skip(1);
        let bt = b.skip(1);
        assert(seq_sorted_strict(at)) by {
            assert forall|x: int, y: int| 0 <= x < y < at.len() implies lex_lt(at[x], at[y]) by {
                assert(at[x] == a[x + 1]);
                assert(at[y] == a[y + 1]);
                assert(lex_lt(a[x + 1], a[y + 1]));
            }
        }
        assert(seq_sorted_strict(bt)) by {
            assert forall|x: int, y: int| 0 <= x < y < bt.len() implies lex_lt(bt[x], bt[y]) by {
                assert(bt[x] == b[x + 1]);
                assert(bt[y] == b[y + 1]);
                assert(lex_lt(b[x + 1], b[y + 1]));
            }
        }
        assert forall|c: Seq<char>| at.contains(c) implies bt.contains(c) by {
            let x = choose|x: int| 0 <= x < at.len() && at[x] == c;
            assert(a[x + 1] == c);
            assert(a.contains(c));
            assert(b.contains(c));
            let y = choose|y: int| 0 <= y < b.len() && b[y] == c;
            assert(lex_lt(a[0], a[x + 1]));
            if y == 0 {
                assert(c == b[0]);
            } else {
                assert(bt[y - 1] == c);
            }
        }
        assert forall|c: Seq<char>| bt.contains(c) implies at.contains(c) by {
            let x = choose|x: int| 0 <= x < bt.len() && bt[x] == c;
            assert(b[x + 1] == c);
            assert(b.contains(c));
            assert(a.contains(c));
            let y = choose|y: int| 0 <= y < a.len() && a[y] == c;
            assert(lex_lt(b[0], b[x + 1]));
            if y == 0 {
                assert(c == a[0]);
            } else {
                assert(at[y - 1] == c);
            }
        }
        lemma_sorted_unique_canonical(at, bt);
        assert forall|x: int| 0 <= x < a.len() implies a[x] == b[x] by {
            if x > 0 {
                assert(at[x - 1] == bt[x - 1]);
            }
        }
        assert(a =~= b);
    }
}

} // verus!
