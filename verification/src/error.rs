//! The registry's error taxonomy, and the operator-readable sentence each
//! error renders to.

use vstd::prelude::*;
use vstd::string::StringExecFns;

use crate::text::decimal_string_of;
use crate::text::u64_to_decimal_string;

verus! {

/// Every failure the registry reports: document problems, query misses, and
/// publish-ingress policy violations, plus the loading-boundary failures.
#[derive(Debug, PartialEq, Eq)]
pub enum MeshRegistryError {
    InvalidDocument(String),
    UnknownApiContract(String),
    MissingRequiredApiContracts(Vec<String>),
    MissingPublishIngressPolicy,
    MissingPublishIngressHop(String),
    MissingPublishIngressHopLimit { hop_name: String, env_var: String },
    InvalidPublishIngressHopLimit { hop_name: String, env_var: String, value: String },
    PublishIngressHopLimitTooLow {
        hop_name: String,
        configured_max_body_bytes: u64,
        required_min_body_bytes: u64,
    },
    Decode(String),
    Io(String),
}

/// The items of `v` joined with a comma and a space between neighbours.
pub open spec fn comma_joined(items: Seq<String>) -> Seq<char>
    decreases items.len(),
{
    if items.len() == 0 {
        Seq::empty()
    } else if items.len() == 1 {
        items[0]@
    } else {
        comma_joined(items.drop_last()) + ", "@ + items.last()@
    }
}

fn join_with_comma(items: &Vec<String>) -> (r: String)
    ensures
        r@ == comma_joined(items@),
{
    let mut joined = String::new();
    let mut i: usize = 0;
    while i < items.len()
        invariant
            i <= items@.len(),
            joined@ == comma_joined(items@.take(i as int)),
        decreases items@.len() - i,
    {
        if i > 0 {
            joined.append(", ");
        }
        joined.append(items[i].as_str());
        proof {
            assert(items@.take(i + 1).drop_last() =~= items@.take(i as int));
            assert(items@.take(i + 1).last() == items@[i as int]);
            if i == 0 {
                assert(items@.take(1).len() == 1);
            }
        }
        i = i + 1;
    }
    proof {
        assert(items@.take(items@.len() as int) =~= items@);
    }
    joined
}

/// The sentence an error renders to, suitable for direct operator display.
pub open spec fn error_message_of(e: MeshRegistryError) -> Seq<char> {
    match e {
        MeshRegistryError::InvalidDocument(m) => "invalid service mesh registry: "@ + m@ + "."@,
        MeshRegistryError::UnknownApiContract(c) => "service mesh api contract '"@ + c@
            + "' is not registered."@,
        MeshRegistryError::MissingRequiredApiContracts(v) =>
        "service mesh registry is missing required api contracts: "@ + comma_joined(v@) + "."@,
        MeshRegistryError::MissingPublishIngressPolicy =>
        "service mesh registry is missing publish ingress policy."@,
        MeshRegistryError::MissingPublishIngressHop(h) =>
        "publish ingress policy does not define required hop '"@ + h@ + "'."@,
        MeshRegistryError::MissingPublishIngressHopLimit { hop_name, env_var } =>
        "publish ingress hop '"@ + hop_name@ + "' is missing configured body limit env '"@ + env_var@
            + "'."@,
        MeshRegistryError::InvalidPublishIngressHopLimit { hop_name, env_var, value } =>
        "publish ingress hop '"@ + hop_name@ + "' env '"@ + env_var@
            + "' must be a positive integer byte value, got '"@ + value@ + "'."@,
        MeshRegistryError::PublishIngressHopLimitTooLow {
            hop_name,
            configured_max_body_bytes,
            required_min_body_bytes,
        } => "publish ingress hop '"@ + hop_name@ + "' max body "@ + decimal_string_of(
            configured_max_body_bytes as int,
        ) + " bytes is below required "@ + decimal_string_of(required_min_body_bytes as int)
            + " bytes."@,
        MeshRegistryError::Decode(m) => "failed to decode service mesh registry document: "@ + m@
            + "."@,
        MeshRegistryError::Io(m) => "failed to read service mesh registry source: "@ + m@ + "."@,
    }
}

impl MeshRegistryError {
    /// Renders the error as one human-readable sentence.
    pub fn message(&self) -> (r: String)
        ensures
            r@ == error_message_of(*self),
    {
        match self {
            MeshRegistryError::InvalidDocument(m) => {
                let mut s = String::from_str("invalid service mesh registry: ");
                s.append(m.as_str());
                s.append(".");
                s
            },
            MeshRegistryError::UnknownApiContract(c) => {
                let mut s = String::from_str("service mesh api contract '");
                s.append(c.as_str());
                s.append("' is not registered.");
                s
            },
            MeshRegistryError::MissingRequiredApiContracts(v) => {
                let mut s = String::from_str(
                    "service mesh registry is missing required api contracts: ",
                );
                let joined = join_with_comma(v);
                s.append(joined.as_str());
                s.append(".");
                s
            },
            MeshRegistryError::MissingPublishIngressPolicy => {
                String::from_str("service mesh registry is missing publish ingress policy.")
            },
            MeshRegistryError::MissingPublishIngressHop(h) => {
                let mut s = String::from_str("publish ingress policy does not define required hop '");
                s.append(h.as_str());
                s.append("'.");
                s
            },
            MeshRegistryError::MissingPublishIngressHopLimit { hop_name, env_var } => {
                let mut s = String::from_str("publish ingress hop '");
                s.append(hop_name.as_str());
                s.append("' is missing configured body limit env '");
                s.append(env_var.as_str());
                s.append("'.");
                s
            },
            MeshRegistryError::InvalidPublishIngressHopLimit { hop_name, env_var, value } => {
                let mut s = String::from_str("publish ingress hop '");
                s.append(hop_name.as_str());
                s.append("' env '");
                s.append(env_var.as_str());
                s.append("' must be a positive integer byte value, got '");
                s.append(value.as_str());
                s.append("'.");
                s
            },
            MeshRegistryError::PublishIngressHopLimitTooLow {
                hop_name,
                configured_max_body_bytes,
                required_min_body_bytes,
            } => {
                let mut s = String::from_str("publish ingress hop '");
                s.append(hop_name.as_str());
                s.append("' max body ");
                let configured = u64_to_decimal_string(*configured_max_body_bytes);
                s.append(configured.as_str());
                s.append(" bytes is below required ");
                let required = u64_to_decimal_string(*required_min_body_bytes);
                s.append(required.as_str());
                s.append(" bytes.");
                s
            },
            MeshRegistryError::Decode(m) => {
                let mut s = String::from_str("failed to decode service mesh registry document: ");
                s.append(m.as_str());
                s.append(".");
                s
            },
            MeshRegistryError::Io(m) => {
                let mut s = String::from_str("failed to read service mesh registry source: ");
                s.append(m.as_str());
                s.append(".");
                s
            },
        }
    }
}

} // verus!
