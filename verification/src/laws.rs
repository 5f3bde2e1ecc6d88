//! The general guarantees of the persistence engine, each stated over the
//! store model and proved from what the engine's operations ensure. These
//! are the properties a caller may lean on without rereading the engine.

use vstd::prelude::*;

use crate::agent_repository::AgentRepository;
use crate::domain::Agent;

verus! {

/// Round trip: after `create` stores a fresh aggregate, reading it back by
/// identifier yields the same capability set and the same metadata
/// mapping; in fact the whole aggregate reads back equal. The premises are
/// exactly what `create` ensures of the store and what `find_by_id`
/// ensures of its result.
pub proof fn lemma_create_find_round_trip(
    pre: AgentRepository,
    post: AgentRepository,
    agent: Agent,
    found: Agent,
)
    requires
        pre.wf(),
        agent@.wf(),
        !pre.has_id(agent.id.0),
        !pre.has_name(agent.name@),
        post.wf(),
        post.has_id(agent.id.0),
        post.abs_of(agent.id.0) == agent@,
        found@ == post.abs_of(agent.id.0),
    ensures
        found@.capabilities == agent@.capabilities,
        found@.metadata == agent@.metadata,
        found@ == agent@,
{
}

/// Reconciliation idempotence: running `update` twice with the same
/// aggregate value leaves the capability and metadata collections exactly
/// as one run does — full replacement cannot accumulate duplicate rows.
/// The premises are what each `update` ensures of the store it produced.
pub proof fn lemma_update_idempotent(
    s1: AgentRepository,
    s2: AgentRepository,
    agent: Agent,
)
    requires
        s1.wf(),
        s2.wf(),
        agent@.wf(),
        s1.has_id(agent.id.0),
        s1.abs_of(agent.id.0).capabilities == agent@.capabilities,
        s1.abs_of(agent.id.0).metadata == agent@.metadata,
        s2.has_id(agent.id.0),
        s2.abs_of(agent.id.0).capabilities == agent@.capabilities,
        s2.abs_of(agent.id.0).metadata == agent@.metadata,
    ensures
        s2.abs_of(agent.id.0).capabilities == s1.abs_of(agent.id.0).capabilities,
        s2.abs_of(agent.id.0).metadata == s1.abs_of(agent.id.0).metadata,
{
}

/// Capability removal is atomic with other changes: after `update` stores
/// an aggregate whose capability set shrank while its status also changed,
/// a read sees exactly the supplied capability set together with the new
/// status — never the old set, never an empty one, never a mix. The
/// premises are what `update` ensures of the store and what `find_by_id`
/// ensures of its result.
pub proof fn lemma_removal_atomic_with_status(
    pre: AgentRepository,
    post: AgentRepository,
    agent: Agent,
    found: Agent,
)
    requires
        pre.wf(),
        post.wf(),
        agent@.wf(),
        pre.has_id(agent.id.0),
        post.has_id(agent.id.0),
        post.abs_of(agent.id.0).capabilities == agent@.capabilities,
        post.abs_of(agent.id.0).status == agent@.status,
        found@ == post.abs_of(agent.id.0),
    ensures
        found@.capabilities == agent@.capabilities,
        found@.status == agent@.status,
{
}

/// Uniqueness: a well-formed store holds exactly one root row carrying any
/// stored name. Together with `create`'s contract — a taken name is a
/// `Conflict` that leaves the store untouched — a second `create` under
/// the same name can never add a second row.
pub proof fn lemma_name_unique(s: AgentRepository, name: Seq<char>)
    requires
        s.wf(),
        s.has_name(name),
    ensures
        exists|k: int| 0 <= k < s.agents@.len() && #[trigger] s.agents@[k].name@ == name,
        forall|i: int, j: int|
            #![trigger s.agents@[i], s.agents@[j]]
            0 <= i < s.agents@.len() && 0 <= j < s.agents@.len() && s.agents@[i].name@ == name
                && s.agents@[j].name@ == name ==> i == j,
{
    assert forall|i: int, j: int|
        #![trigger s.agents@[i], s.agents@[j]]
        0 <= i < s.agents@.len() && 0 <= j < s.agents@.len() && s.agents@[i].name@ == name
            && s.agents@[j].name@ == name implies i == j by {
        if i < j {
            assert(s.agents@[i].name@ != s.agents@[j].name@);
        } else if j < i {
            assert(s.agents@[j].name@ != s.agents@[i].name@);
        }
    }
}

} // verus!
