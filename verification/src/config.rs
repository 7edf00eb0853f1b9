//! Agent configuration: identity of the node and the policy it enforces.
use vstd::prelude::*;

verus! {

/// The policy an agent enforces on incoming requests.
#[derive(Debug, Clone)]
pub struct PolicyConfig {
    /// Environments that requests may target.
    pub allow_environments: Vec<String>,
    /// The largest payload size accepted.
    pub max_payload_size: usize,
}

/// The agent's configuration file.
#[derive(Debug, Clone)]
pub struct AgentConfig {
    pub node_name: String,
    pub environment: String,
    pub log_level: String,
    pub policy: PolicyConfig,
}

/// Whether `environment` is one of the allowed environments in `list`.
pub open spec fn environment_allowed(list: Seq<String>, environment: Seq<char>) -> bool {
    exists|i: int| 0 <= i < list.len() && (#[trigger] list[i])@ == environment
}

/// An environment is allowed exactly when it is a member of the list (compared as text), wherever
/// in the list it stands.
pub proof fn lemma_environment_allowed_is_membership(list: Seq<String>, environment: Seq<char>)
    ensures
        environment_allowed(list, environment) == list.map_values(|s: String| s@).contains(
            environment,
        ),
        forall|i: int|
            0 <= i < list.len() && (#[trigger] list[i])@ == environment ==> environment_allowed(
                list,
                environment,
            ),
{
    let texts = list.map_values(|s: String| s@);
    if environment_allowed(list, environment) {
        let i = choose|i: int| 0 <= i < list.len() && (#[trigger] list[i])@ == environment;
        assert(texts[i] == environment);
    }
    if texts.contains(environment) {
        let i = choose|i: int| 0 <= i < texts.len() && texts[i] == environment;
        assert(list[i]@ == environment);
    }
}

/// Whether `environment` is listed in `list` (as `list.contains(..)` decides).
pub fn environment_listed(list: &Vec<String>, environment: &str) -> (found: bool)
    ensures
        found == environment_allowed(list@, environment@),
        found == list@.map_values(|s: String| s@).contains(environment@),
        forall|i: int| 0 <= i < list@.len() && list@[i]@ == environment@ ==> found,
{
    proof {
        lemma_environment_allowed_is_membership(list@, environment@);
    }
    let wanted = environment.to_owned();
    let n = list.len();
    let mut i: usize = 0;
    while i < n
        invariant
            n == list@.len(),
            i <= n,
            wanted@ == environment@,
            forall|j: int| 0 <= j < i ==> (#[trigger] list@[j])@ != environment@,
        decreases n - i,
    {
        if list[i] == wanted {
            assert(list@[i as int]@ == environment@);
            assert(environment_allowed(list@, environment@));
            assert(list@.map_values(|s: String| s@)[i as int] == environment@);
            return true;
        }
        i = i + 1;
    }
    assert(!list@.map_values(|s: String| s@).contains(environment@));
    false
}

} // verus!
