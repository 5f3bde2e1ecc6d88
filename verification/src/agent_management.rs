//! Use-case orchestrator for the `Agent` aggregate: it validates inputs,
//! materializes new aggregates, checks existence before every mutation,
//! and delegates persistence to the agent store.

use vstd::prelude::*;

use crate::agent_repository::AgentRepository;
use crate::agent_repository::root_status_is;
use crate::agent_repository::selected;
use crate::domain::Agent;
use crate::domain::AgentConfiguration;
use crate::domain::AgentId;
use crate::domain::AgentStatus;
use crate::domain::AgentType;
use crate::domain::AgentView;
use crate::domain::Capability;
use crate::domain::CapabilityView;
use crate::domain::CreateAgentRequest;
use crate::error::Error;

verus! {

/// The aggregate a creation request materializes into, given the assigned
/// identifier and creation instant: a new agent starts `Active` with equal
/// creation and update timestamps.
pub open spec fn materialized_agent(request: CreateAgentRequest, id: u128, now: i64) -> AgentView {
    AgentView {
        id,
        name: request.name,
        description: request.description,
        agent_type: request.agent_type,
        status: AgentStatus::Active,
        capabilities: request.capabilities@.map_values(|c: Capability| c@),
        configuration: request.configuration@,
        metadata: request.metadata@,
        created_at: now,
        updated_at: now,
    }
}

/// Whether some capability in the sequence carries this name.
pub open spec fn has_capability_named(caps: Seq<CapabilityView>, name: Seq<char>) -> bool {
    exists|k: int| 0 <= k < caps.len() && #[trigger] caps[k].name@ == name
}

/// Capability views that survive removing the one named `name`.
pub open spec fn capability_kept(name: Seq<char>) -> spec_fn(CapabilityView) -> bool {
    |c: CapabilityView| c.name@ != name
}

/// Counts of agents by operational status, along with the total.
#[derive(Clone, Copy, PartialEq, Eq, Structural, Debug)]
pub struct AgentStatistics {
    pub total_agents: usize,
    pub active_agents: usize,
    pub inactive_agents: usize,
    pub training_agents: usize,
    pub error_agents: usize,
}

/// Orchestrator for the agent aggregate family.
pub struct AgentManagementUseCase {
    pub agent_repo: AgentRepository,
}

impl AgentManagementUseCase {
    /// The orchestrator is as well formed as its store.
    pub open spec fn wf(self) -> bool {
        self.agent_repo.wf()
    }

    /// Builds the orchestrator around a store.
    pub fn new(agent_repo: AgentRepository) -> (r: Self)
        ensures
            r.agent_repo == agent_repo,
    {
        AgentManagementUseCase { agent_repo }
    }

    /// Checks a configuration against the domain rules. The default domain
    /// policy accepts every configuration.
    pub fn validate_agent_configuration(&self, _configuration: &AgentConfiguration) -> (r: bool)
        ensures
            r,
    {
        true
    }

    /// Materializes and stores the agent described by the request, under
    /// the given identifier and creation instant. Fails with `Conflict`,
    /// leaving the store untouched, exactly when the identifier or the
    /// display name is already stored.
    pub fn create_agent_with(&mut self, request: CreateAgentRequest, id: u128, now: i64) -> (r:
        Result<Agent, Error>)
        requires
            old(self).wf(),
            request.wf(),
        ensures
            final(self).wf(),
            match r {
                Ok(a) => {
                    &&& !old(self).agent_repo.has_id(id)
                    &&& !old(self).agent_repo.has_name(request.name@)
                    &&& a@ == materialized_agent(request, id, now)
                    &&& final(self).agent_repo.has_id(id)
                    &&& final(self).agent_repo.abs_of(id) == a@
                    &&& final(self).agent_repo.has_name(request.name@)
                    &&& final(self).agent_repo.agent_count() == old(self).agent_repo.agent_count()
                        + 1
                    &&& forall|j: u128|
                        j != id ==> final(self).agent_repo.has_id(j) == old(
                            self,
                        ).agent_repo.has_id(j)
                    &&& forall|j: u128|
                        j != id && old(self).agent_repo.has_id(j) ==> final(self).agent_repo.abs_of(j) == old(self).agent_repo.abs_of(j)
                },
                Err(e) => {
                    &&& e is ValidationError || e is Conflict
                    &&& e is Conflict ==> old(self).agent_repo.has_id(id) || old(
                        self,
                    ).agent_repo.has_name(request.name@)
                    &&& !(e is ValidationError)
                    &&& *final(self) == *old(self)
                },
            },
            (r is Err) <==> (old(self).agent_repo.has_id(id) || old(self).agent_repo.has_name(
                request.name@,
            )),
    {
        if !self.validate_agent_configuration(&request.configuration) {
            return Err(Error::ValidationError("invalid agent configuration".to_owned()));
        }
        let agent = Agent {
            id: AgentId(id),
            name: request.name,
            description: request.description,
            agent_type: request.agent_type,
            status: AgentStatus::Active,
            capabilities: request.capabilities,
            configuration: request.configuration,
            metadata: request.metadata,
            created_at: now,
            updated_at: now,
        };
        self.agent_repo.create(&agent)
    }

    /// Creates an agent from the request: the domain policy assigns a fresh
    /// identifier and the current instant, the new agent starts `Active`,
    /// and the aggregate is persisted whole. A display name already stored
    /// is a `Conflict`; since the identifier is drawn at random, success is
    /// owed only when neither the name nor the drawn identifier is taken.
    pub fn create_agent(&mut self, request: CreateAgentRequest) -> (r: Result<Agent, Error>)
        requires
            old(self).wf(),
            request.wf(),
        ensures
            final(self).wf(),
            match r {
                Ok(a) => {
                    &&& !old(self).agent_repo.has_name(request.name@)
                    &&& a@.name == request.name
                    &&& a@.description == request.description
                    &&& a@.agent_type == request.agent_type
                    &&& a@.status == AgentStatus::Active
                    &&& a@.capabilities == request.capabilities@.map_values(|c: Capability| c@)
                    &&& a@.configuration == request.configuration@
                    &&& a@.metadata == request.metadata@
                    &&& a@.created_at == a@.updated_at
                    &&& final(self).agent_repo.has_id(a@.id)
                    &&& final(self).agent_repo.abs_of(a@.id) == a@
                    &&& final(self).agent_repo.has_name(request.name@)
                    &&& final(self).agent_repo.agent_count() == old(self).agent_repo.agent_count()
                        + 1
                    &&& forall|j: u128|
                        j != a@.id && old(self).agent_repo.has_id(j) ==> final(self).agent_repo.abs_of(j) == old(self).agent_repo.abs_of(j)
                },
                Err(e) => {
                    &&& e is Conflict
                    &&& *final(self) == *old(self)
                },
            },
            old(self).agent_repo.has_name(request.name@) ==> r is Err,
            old(self).agent_repo.agent_count() == 0 ==> r is Ok,
            r is Err ==> (old(self).agent_repo.has_name(request.name@) || old(
                self,
            ).agent_repo.agent_count() > 0),
    {
        let ghost pre = *self;
        let ghost requested_name = request.name@;
        let id = crate::runtime::fresh_id();
        let now = crate::runtime::now_millis();
        let r = self.create_agent_with(request, id, now);
        proof {
            if pre.agent_repo.agent_count() == 0 {
                assert(!pre.agent_repo.has_id(id));
                assert(!pre.agent_repo.has_name(requested_name));
            }
            if pre.agent_repo.has_id(id) {
                let k = choose|k: int|
                    0 <= k < pre.agent_repo.agents@.len()
                        && #[trigger] pre.agent_repo.agents@[k].id == id;
                assert(pre.agent_repo.agent_count() > 0);
            }
        }
        r
    }

    /// Sets the operational status of an existing agent, leaving every
    /// other part of the aggregate as stored. An unknown identifier is
    /// `NotFound` and changes nothing.
    pub fn update_agent_status(&mut self, agent_id: &AgentId, new_status: AgentStatus) -> (r:
        Result<Agent, Error>)
        requires
            old(self).wf(),
        ensures
            final(self).wf(),
            match r {
                Ok(a) => {
                    &&& old(self).agent_repo.has_id(agent_id.0)
                    &&& a@.status == new_status
                    &&& a@.id == agent_id.0
                    &&& a@.name == old(self).agent_repo.abs_of(agent_id.0).name
                    &&& a@.description == old(self).agent_repo.abs_of(agent_id.0).description
                    &&& a@.agent_type == old(self).agent_repo.abs_of(agent_id.0).agent_type
                    &&& a@.created_at == old(self).agent_repo.abs_of(agent_id.0).created_at
                    &&& a@.capabilities == old(self).agent_repo.abs_of(agent_id.0).capabilities
                    &&& a@.metadata == old(self).agent_repo.abs_of(agent_id.0).metadata
                    &&& a@.configuration == old(self).agent_repo.abs_of(agent_id.0).configuration
                    &&& final(self).agent_repo.has_id(agent_id.0)
                    &&& final(self).agent_repo.abs_of(agent_id.0).status == new_status
                    &&& final(self).agent_repo.abs_of(agent_id.0).description == old(
                        self,
                    ).agent_repo.abs_of(agent_id.0).description
                    &&& final(self).agent_repo.abs_of(agent_id.0).agent_type == old(
                        self,
                    ).agent_repo.abs_of(agent_id.0).agent_type
                    &&& final(self).agent_repo.abs_of(agent_id.0).created_at == old(
                        self,
                    ).agent_repo.abs_of(agent_id.0).created_at
                    &&& final(self).agent_repo.abs_of(agent_id.0).capabilities == old(
                        self,
                    ).agent_repo.abs_of(agent_id.0).capabilities
                    &&& final(self).agent_repo.abs_of(agent_id.0).metadata == old(
                        self,
                    ).agent_repo.abs_of(agent_id.0).metadata
                    &&& final(self).agent_repo.abs_of(agent_id.0).configuration == old(
                        self,
                    ).agent_repo.abs_of(agent_id.0).configuration
                    &&& final(self).agent_repo.abs_of(agent_id.0).name == old(
                        self,
                    ).agent_repo.abs_of(agent_id.0).name
                    &&& forall|j: u128|
                        final(self).agent_repo.has_id(j) == old(self).agent_repo.has_id(j)
                    &&& forall|j: u128|
                        j != agent_id.0 && old(self).agent_repo.has_id(j) ==> final(self).agent_repo.abs_of(j) == old(self).agent_repo.abs_of(j)
                },
                Err(e) => {
                    &&& e is NotFound
                    &&& !old(self).agent_repo.has_id(agent_id.0)
                    &&& *final(self) == *old(self)
                },
            },
            (r is Ok) <==> old(self).agent_repo.has_id(agent_id.0),
    {
        let found = self.agent_repo.find_by_id(agent_id)?;
        let mut agent = match found {
            Some(a) => a,
            None => {
                return Err(Error::NotFound("no agent with this id".to_owned()));
            },
        };
        agent.status = new_status;
        proof {
            self.agent_repo.lemma_own_name_not_taken(agent_id.0);
        }
        self.agent_repo.update(&agent)
    }

    /// Adds a capability to an existing agent. An unknown identifier is
    /// `NotFound`; a capability name the agent already has is a `Conflict`;
    /// either failure changes nothing.
    #[verifier::loop_isolation(false)]
    pub fn add_capability(&mut self, agent_id: &AgentId, capability: Capability) -> (r: Result<
        Agent,
        Error,
    >)
        requires
            old(self).wf(),
        ensures
            final(self).wf(),
            match r {
                Ok(a) => {
                    &&& old(self).agent_repo.has_id(agent_id.0)
                    &&& !has_capability_named(
                        old(self).agent_repo.abs_of(agent_id.0).capabilities,
                        capability.name@,
                    )
                    &&& a@.id == agent_id.0
                    &&& a@.capabilities == old(self).agent_repo.abs_of(
                        agent_id.0,
                    ).capabilities.push(capability@)
                    &&& final(self).agent_repo.has_id(agent_id.0)
                    &&& final(self).agent_repo.abs_of(agent_id.0).capabilities == old(
                        self,
                    ).agent_repo.abs_of(agent_id.0).capabilities.push(capability@)
                    &&& final(self).agent_repo.abs_of(agent_id.0).status == old(
                        self,
                    ).agent_repo.abs_of(agent_id.0).status
                    &&& final(self).agent_repo.abs_of(agent_id.0).metadata == old(
                        self,
                    ).agent_repo.abs_of(agent_id.0).metadata
                    &&& final(self).agent_repo.abs_of(agent_id.0).configuration == old(
                        self,
                    ).agent_repo.abs_of(agent_id.0).configuration
                    &&& final(self).agent_repo.abs_of(agent_id.0).name == old(
                        self,
                    ).agent_repo.abs_of(agent_id.0).name
                    &&& final(self).agent_repo.abs_of(agent_id.0).description == old(
                        self,
                    ).agent_repo.abs_of(agent_id.0).description
                    &&& final(self).agent_repo.abs_of(agent_id.0).agent_type == old(
                        self,
                    ).agent_repo.abs_of(agent_id.0).agent_type
                    &&& final(self).agent_repo.abs_of(agent_id.0).created_at == old(
                        self,
                    ).agent_repo.abs_of(agent_id.0).created_at
                    &&& forall|j: u128|
                        final(self).agent_repo.has_id(j) == old(self).agent_repo.has_id(j)
                    &&& forall|j: u128|
                        j != agent_id.0 && old(self).agent_repo.has_id(j) ==> final(self).agent_repo.abs_of(j) == old(self).agent_repo.abs_of(j)
                },
                Err(e) => {
                    &&& (e is NotFound <==> !old(self).agent_repo.has_id(agent_id.0))
                    &&& (e is Conflict <==> old(self).agent_repo.has_id(agent_id.0)
                        && has_capability_named(
                        old(self).agent_repo.abs_of(agent_id.0).capabilities,
                        capability.name@,
                    ))
                    &&& (e is NotFound || e is Conflict)
                    &&& *final(self) == *old(self)
                },
            },
    {
        let found = self.agent_repo.find_by_id(agent_id)?;
        let mut agent = match found {
            Some(a) => a,
            None => {
                return Err(Error::NotFound("no agent with this id".to_owned()));
            },
        };
        let mut i: usize = 0;
        while i < agent.capabilities.len()
            invariant
                i <= agent.capabilities@.len(),
                forall|k: int|
                    0 <= k < i ==> (#[trigger] agent.capabilities@[k])@.name@ != capability.name@,
            decreases agent.capabilities@.len() - i,
        {
            if agent.capabilities[i].name.eq(&capability.name) {
                proof {
                    assert(agent@.capabilities[i as int].name@ == capability.name@);
                }
                return Err(Error::Conflict("capability name already present".to_owned()));
            }
            i = i + 1;
        }
        proof {
            assert forall|k: int|
                0 <= k < agent@.capabilities.len() implies (#[trigger] agent@.capabilities[k]).name@
                != capability.name@ by {
                assert(agent@.capabilities[k] == agent.capabilities@[k]@);
            }
        }
        let ghost before = agent@.capabilities;
        let ghost cap_view = capability@;
        agent.capabilities.push(capability);
        proof {
            assert(agent@.capabilities =~= before.push(cap_view));
            assert(agent@.wf()) by {
                assert forall|x: int, y: int|
                    #![trigger agent@.capabilities[x], agent@.capabilities[y]]
                    0 <= x < y < agent@.capabilities.len() implies agent@.capabilities[x].name@
                    != agent@.capabilities[y].name@ by {
                    if y == agent@.capabilities.len() - 1 {
                        assert(agent@.capabilities[x] == before[x]);
                    }
                }
            }
            self.agent_repo.lemma_own_name_not_taken(agent_id.0);
        }
        self.agent_repo.update(&agent)
    }

    /// Removes the capability with this name from an existing agent,
    /// leaving the rest of the aggregate as stored; removing a name the
    /// agent does not have leaves the capability set unchanged. An unknown
    /// identifier is `NotFound` and changes nothing.
    #[verifier::loop_isolation(false)]
    pub fn remove_capability(&mut self, agent_id: &AgentId, capability_name: &str) -> (r: Result<
        Agent,
        Error,
    >)
        requires
            old(self).wf(),
        ensures
            final(self).wf(),
            match r {
                Ok(a) => {
                    &&& old(self).agent_repo.has_id(agent_id.0)
                    &&& a@.id == agent_id.0
                    &&& a@.capabilities == selected(
                        old(self).agent_repo.abs_of(agent_id.0).capabilities,
                        capability_kept(capability_name@),
                    )
                    &&& final(self).agent_repo.has_id(agent_id.0)
                    &&& final(self).agent_repo.abs_of(agent_id.0).capabilities == selected(
                        old(self).agent_repo.abs_of(agent_id.0).capabilities,
                        capability_kept(capability_name@),
                    )
                    &&& final(self).agent_repo.abs_of(agent_id.0).status == old(
                        self,
                    ).agent_repo.abs_of(agent_id.0).status
                    &&& final(self).agent_repo.abs_of(agent_id.0).metadata == old(
                        self,
                    ).agent_repo.abs_of(agent_id.0).metadata
                    &&& final(self).agent_repo.abs_of(agent_id.0).configuration == old(
                        self,
                    ).agent_repo.abs_of(agent_id.0).configuration
                    &&& final(self).agent_repo.abs_of(agent_id.0).name == old(
                        self,
                    ).agent_repo.abs_of(agent_id.0).name
                    &&& final(self).agent_repo.abs_of(agent_id.0).description == old(
                        self,
                    ).agent_repo.abs_of(agent_id.0).description
                    &&& final(self).agent_repo.abs_of(agent_id.0).agent_type == old(
                        self,
                    ).agent_repo.abs_of(agent_id.0).agent_type
                    &&& final(self).agent_repo.abs_of(agent_id.0).created_at == old(
                        self,
                    ).agent_repo.abs_of(agent_id.0).created_at
                    &&& forall|j: u128|
                        final(self).agent_repo.has_id(j) == old(self).agent_repo.has_id(j)
                    &&& forall|j: u128|
                        j != agent_id.0 && old(self).agent_repo.has_id(j) ==> final(self).agent_repo.abs_of(j) == old(self).agent_repo.abs_of(j)
                },
                Err(e) => {
                    &&& e is NotFound
                    &&& !old(self).agent_repo.has_id(agent_id.0)
                    &&& *final(self) == *old(self)
                },
            },
            (r is Ok) <==> old(self).agent_repo.has_id(agent_id.0),
    {
        let found = self.agent_repo.find_by_id(agent_id)?;
        let mut agent = match found {
            Some(a) => a,
            None => {
                return Err(Error::NotFound("no agent with this id".to_owned()));
            },
        };
        let ghost pred = capability_kept(capability_name@);
        let ghost full = agent@.capabilities;
        let target = capability_name.to_owned();
        let mut kept: Vec<Capability> = Vec::new();
        let mut i: usize = 0;
        while i < agent.capabilities.len()
            invariant
                i <= agent.capabilities@.len(),
                full == agent.capabilities@.map_values(|c: Capability| c@),
                target@ == capability_name@,
                kept@.map_values(|c: Capability| c@) == selected(full.subrange(0, i as int), pred),
            decreases agent.capabilities@.len() - i,
        {
            proof {
                assert(full.subrange(0, i + 1 as int) =~= full.subrange(0, i as int).push(
                    full[i as int],
                ));
                crate::agent_repository::lemma_selected_push(
                    full.subrange(0, i as int),
                    pred,
                    full[i as int],
                );
                assert(full[i as int] == agent.capabilities@[i as int]@);
            }
            if !agent.capabilities[i].name.eq(&target) {
                let ghost before = kept@.map_values(|c: Capability| c@);
                kept.push(agent.capabilities[i].clone());
                proof {
                    assert(kept@.map_values(|c: Capability| c@) =~= before.push(full[i as int]));
                }
            }
            i = i + 1;
        }
        proof {
            assert(full.subrange(0, full.len() as int) =~= full);
        }
        agent.capabilities = kept;
        proof {
            crate::agent_repository::lemma_selected_membership(full, pred);
            crate::agent_repository::lemma_selected_pairwise(
                full,
                pred,
                |x: CapabilityView, y: CapabilityView| x.name@ != y.name@,
            );
            assert(agent@.wf()) by {
                assert forall|x: int, y: int|
                    #![trigger agent@.capabilities[x], agent@.capabilities[y]]
                    0 <= x < y < agent@.capabilities.len() implies agent@.capabilities[x].name@
                    != agent@.capabilities[y].name@ by {
                    assert(agent@.capabilities[x] == selected(full, pred)[x]);
                    assert(agent@.capabilities[y] == selected(full, pred)[y]);
                }
            }
            self.agent_repo.lemma_own_name_not_taken(agent_id.0);
        }
        self.agent_repo.update(&agent)
    }

    /// Replaces the configuration of an existing agent, leaving every
    /// other part of the aggregate as stored. An unknown identifier is
    /// `NotFound` and changes nothing.
    pub fn update_agent_configuration(&mut self, agent_id: &AgentId, new_config: AgentConfiguration) -> (r: Result<Agent, Error>)
        requires
            old(self).wf(),
        ensures
            final(self).wf(),
            match r {
                Ok(a) => {
                    &&& old(self).agent_repo.has_id(agent_id.0)
                    &&& a@.id == agent_id.0
                    &&& a@.configuration == new_config@
                    &&& final(self).agent_repo.has_id(agent_id.0)
                    &&& final(self).agent_repo.abs_of(agent_id.0).configuration == new_config@
                    &&& final(self).agent_repo.abs_of(agent_id.0).capabilities == old(
                        self,
                    ).agent_repo.abs_of(agent_id.0).capabilities
                    &&& final(self).agent_repo.abs_of(agent_id.0).metadata == old(
                        self,
                    ).agent_repo.abs_of(agent_id.0).metadata
                    &&& final(self).agent_repo.abs_of(agent_id.0).status == old(
                        self,
                    ).agent_repo.abs_of(agent_id.0).status
                    &&& final(self).agent_repo.abs_of(agent_id.0).name == old(
                        self,
                    ).agent_repo.abs_of(agent_id.0).name
                    &&& final(self).agent_repo.abs_of(agent_id.0).description == old(
                        self,
                    ).agent_repo.abs_of(agent_id.0).description
                    &&& final(self).agent_repo.abs_of(agent_id.0).agent_type == old(
                        self,
                    ).agent_repo.abs_of(agent_id.0).agent_type
                    &&& final(self).agent_repo.abs_of(agent_id.0).created_at == old(
                        self,
                    ).agent_repo.abs_of(agent_id.0).created_at
                    &&& forall|j: u128|
                        final(self).agent_repo.has_id(j) == old(self).agent_repo.has_id(j)
                    &&& forall|j: u128|
                        j != agent_id.0 && old(self).agent_repo.has_id(j) ==> final(self).agent_repo.abs_of(j) == old(self).agent_repo.abs_of(j)
                },
                Err(e) => {
                    &&& e is NotFound
                    &&& !old(self).agent_repo.has_id(agent_id.0)
                    &&& *final(self) == *old(self)
                },
            },
            (r is Ok) <==> old(self).agent_repo.has_id(agent_id.0),
    {
        if !self.validate_agent_configuration(&new_config) {
            return Err(Error::ValidationError("invalid agent configuration".to_owned()));
        }
        let found = self.agent_repo.find_by_id(agent_id)?;
        let mut agent = match found {
            Some(a) => a,
            None => {
                return Err(Error::NotFound("no agent with this id".to_owned()));
            },
        };
        agent.configuration = new_config;
        proof {
            self.agent_repo.lemma_own_name_not_taken(agent_id.0);
        }
        self.agent_repo.update(&agent)
    }

    /// Deletes an existing agent and all its dependent rows. An unknown
    /// identifier is `NotFound` and changes nothing.
    pub fn delete_agent(&mut self, agent_id: &AgentId) -> (r: Result<(), Error>)
        requires
            old(self).wf(),
        ensures
            final(self).wf(),
            match r {
                Ok(_) => {
                    &&& old(self).agent_repo.has_id(agent_id.0)
                    &&& !final(self).agent_repo.has_id(agent_id.0)
                    &&& final(self).agent_repo.agent_count() == old(self).agent_repo.agent_count()
                        - 1
                    &&& forall|j: u128|
                        j != agent_id.0 ==> final(self).agent_repo.has_id(j) == old(
                            self,
                        ).agent_repo.has_id(j)
                    &&& forall|j: u128|
                        j != agent_id.0 && old(self).agent_repo.has_id(j) ==> final(self).agent_repo.abs_of(j) == old(self).agent_repo.abs_of(j)
                },
                Err(e) => {
                    &&& e is NotFound
                    &&& !old(self).agent_repo.has_id(agent_id.0)
                    &&& *final(self) == *old(self)
                },
            },
            (r is Ok) <==> old(self).agent_repo.has_id(agent_id.0),
    {
        let found = self.agent_repo.find_by_id(agent_id)?;
        if found.is_none() {
            return Err(Error::NotFound("no agent with this id".to_owned()));
        }
        self.agent_repo.delete(agent_id)
    }

    /// Looks one agent up by identifier.
    pub fn find_agent(&self, agent_id: &AgentId) -> (r: Result<Option<Agent>, Error>)
        requires
            self.wf(),
        ensures
            match r {
                Ok(found) => match found {
                    Some(a) => self.agent_repo.has_id(agent_id.0) && a@ == self.agent_repo.abs_of(
                        agent_id.0,
                    ),
                    None => !self.agent_repo.has_id(agent_id.0),
                },
                Err(_) => false,
            },
    {
        self.agent_repo.find_by_id(agent_id)
    }

    /// Looks one agent up by display name.
    pub fn find_agent_by_name(&self, name: &str) -> (r: Result<Option<Agent>, Error>)
        requires
            self.wf(),
        ensures
            match r {
                Ok(found) => match found {
                    Some(a) => self.agent_repo.has_name(name@) && a@ == self.agent_repo.abs_of(
                        self.agent_repo.id_of_name(name@),
                    ),
                    None => !self.agent_repo.has_name(name@),
                },
                Err(_) => false,
            },
    {
        self.agent_repo.find_by_name(name)
    }

    /// Reads every agent, newest first.
    pub fn list_all_agents(&self) -> (r: Result<Vec<Agent>, Error>)
        requires
            self.wf(),
        ensures
            match r {
                Ok(v) => {
                    &&& v@.len() == self.agent_repo.agent_count()
                    &&& forall|k: int|
                        0 <= k < v@.len() ==> (#[trigger] v@[k])@ == self.agent_repo.abs_of(
                            self.agent_repo.agents@[k].id,
                        )
                    &&& forall|k: int, m: int|
                        #![trigger v@[k], v@[m]]
                        0 <= k <= m < v@.len() ==> v@[k]@.created_at >= v@[m]@.created_at
                },
                Err(_) => false,
            },
    {
        self.agent_repo.find_all()
    }

    /// Reads every agent of the given type, newest first.
    pub fn find_agents_by_type(&self, agent_type: &AgentType) -> (r: Result<Vec<Agent>, Error>)
        requires
            self.wf(),
        ensures
            match r {
                Ok(v) => {
                    &&& v@.len() == selected(
                        self.agent_repo.agents@,
                        crate::agent_repository::root_type_is(*agent_type),
                    ).len()
                    &&& forall|k: int|
                        0 <= k < v@.len() ==> (#[trigger] v@[k])@ == self.agent_repo.abs_of(
                            selected(
                                self.agent_repo.agents@,
                                crate::agent_repository::root_type_is(*agent_type),
                            )[k].id,
                        )
                },
                Err(_) => false,
            },
    {
        self.agent_repo.find_by_type(agent_type)
    }

    /// Reads every agent in the given status, newest first.
    pub fn find_agents_by_status(&self, status: &AgentStatus) -> (r: Result<Vec<Agent>, Error>)
        requires
            self.wf(),
        ensures
            match r {
                Ok(v) => {
                    &&& v@.len() == selected(self.agent_repo.agents@, root_status_is(*status)).len()
                    &&& forall|k: int|
                        0 <= k < v@.len() ==> (#[trigger] v@[k])@ == self.agent_repo.abs_of(
                            selected(self.agent_repo.agents@, root_status_is(*status))[k].id,
                        )
                },
                Err(_) => false,
            },
    {
        self.agent_repo.find_by_status(status)
    }

    /// Number of stored agents.
    pub fn get_agent_count(&self) -> (r: Result<usize, Error>)
        requires
            self.wf(),
        ensures
            r == Ok::<usize, Error>(self.agent_repo.agent_count() as usize),
    {
        self.agent_repo.count()
    }

    /// Assembles the per-status counts of agents. Each field equals the
    /// number of root rows in that status; the total is the row count.
    /// Agents in `Maintenance` are counted only in the total.
    pub fn get_agent_statistics(&self) -> (r: Result<AgentStatistics, Error>)
        requires
            self.wf(),
        ensures
            match r {
                Ok(s) => {
                    &&& s.total_agents == self.agent_repo.agent_count()
                    &&& s.active_agents == selected(
                        self.agent_repo.agents@,
                        root_status_is(AgentStatus::Active),
                    ).len()
                    &&& s.inactive_agents == selected(
                        self.agent_repo.agents@,
                        root_status_is(AgentStatus::Inactive),
                    ).len()
                    &&& s.training_agents == selected(
                        self.agent_repo.agents@,
                        root_status_is(AgentStatus::Training),
                    ).len()
                    &&& s.error_agents == selected(
                        self.agent_repo.agents@,
                        root_status_is(AgentStatus::Error),
                    ).len()
                },
                Err(_) => false,
            },
    {
        let total_agents = self.agent_repo.count()?;
        let active = self.agent_repo.find_by_status(&AgentStatus::Active)?;
        let inactive = self.agent_repo.find_by_status(&AgentStatus::Inactive)?;
        let training = self.agent_repo.find_by_status(&AgentStatus::Training)?;
        let error = self.agent_repo.find_by_status(&AgentStatus::Error)?;
        Ok(
            AgentStatistics {
                total_agents,
                active_agents: active.len(),
                inactive_agents: inactive.len(),
                training_agents: training.len(),
                error_agents: error.len(),
            },
        )
    }
}

} // verus!
