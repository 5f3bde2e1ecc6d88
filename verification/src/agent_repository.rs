//! Aggregate persistence engine for `Agent`. The store is normalized the
//! way a relational schema would be: one root table and three dependent
//! tables (capabilities, configuration, metadata), all addressed solely by
//! the owning agent's identifier. Every operation either completes whole
//! or leaves the store untouched, and `update` reconciles the dependent
//! tables by removing every row of the aggregate and reinserting the rows
//! supplied, so removed children disappear atomically with the other
//! changes.

use vstd::prelude::*;

use crate::domain::Agent;
use crate::domain::AgentConfiguration;
use crate::domain::AgentConfigurationView;
use crate::domain::AgentId;
use crate::domain::AgentStatus;
use crate::domain::AgentType;
use crate::domain::AgentView;
use crate::domain::Capability;
use crate::domain::CapabilityView;
use crate::domain::agent_type_eq;
use crate::error::Error;

verus! {

// ---------------------------------------------------------------------
// Rows of the normalized tables
// ---------------------------------------------------------------------

/// Root row of one agent.
pub struct AgentRow {
    pub id: u128,
    pub name: String,
    pub description: String,
    pub agent_type: AgentType,
    pub status: AgentStatus,
    pub created_at: i64,
    pub updated_at: i64,
}

/// One capability row, addressed by the owning agent.
pub struct CapabilityRow {
    pub agent_id: u128,
    pub capability: Capability,
}

/// The single configuration row of one agent.
pub struct ConfigurationRow {
    pub agent_id: u128,
    pub configuration: AgentConfiguration,
}

/// One metadata entry row, addressed by the owning agent.
pub struct MetadataRow {
    pub agent_id: u128,
    pub key: String,
    pub value: String,
}

// ---------------------------------------------------------------------
// Selecting rows in specification land
// ---------------------------------------------------------------------

/// The subsequence of `rows` satisfying `pred`, in row order.
pub open spec fn selected<T>(rows: Seq<T>, pred: spec_fn(T) -> bool) -> Seq<T>
    decreases rows.len(),
{
    if rows.len() == 0 {
        Seq::empty()
    } else if pred(rows.last()) {
        selected(rows.drop_last(), pred).push(rows.last())
    } else {
        selected(rows.drop_last(), pred)
    }
}

/// How `selected` grows when one row is appended.
pub proof fn lemma_selected_push<T>(rows: Seq<T>, pred: spec_fn(T) -> bool, r: T)
    ensures
        selected(rows.push(r), pred) == if pred(r) {
            selected(rows, pred).push(r)
        } else {
            selected(rows, pred)
        },
{
    assert(rows.push(r).drop_last() =~= rows);
    assert(rows.push(r).last() == r);
}

/// With no matching row, nothing is selected.
pub proof fn lemma_selected_absent<T>(rows: Seq<T>, pred: spec_fn(T) -> bool)
    requires
        forall|k: int| 0 <= k < rows.len() ==> !pred(#[trigger] rows[k]),
    ensures
        selected(rows, pred) == Seq::<T>::empty(),
    decreases rows.len(),
{
    if rows.len() > 0 {
        lemma_selected_absent(rows.drop_last(), pred);
    }
}

/// `selected` distributes over concatenation.
pub proof fn lemma_selected_append<T>(a: Seq<T>, b: Seq<T>, pred: spec_fn(T) -> bool)
    ensures
        selected(a + b, pred) == selected(a, pred) + selected(b, pred),
    decreases b.len(),
{
    if b.len() == 0 {
        assert(a + b =~= a);
        assert(selected(a, pred) + selected(b, pred) =~= selected(a, pred));
    } else {
        lemma_selected_append(a, b.drop_last(), pred);
        assert((a + b).drop_last() =~= a + b.drop_last());
        assert((a + b).last() == b.last());
        if pred(b.last()) {
            assert(selected(a, pred) + selected(b.drop_last(), pred).push(b.last()) =~= (selected(
                a,
                pred,
            ) + selected(b.drop_last(), pred)).push(b.last()));
        }
    }
}

/// Every selected row satisfies the predicate and occurs among the rows.
pub proof fn lemma_selected_membership<T>(rows: Seq<T>, pred: spec_fn(T) -> bool)
    ensures
        forall|n: int|
            0 <= n < selected(rows, pred).len() ==> pred(#[trigger] selected(rows, pred)[n]),
        forall|n: int|
            0 <= n < selected(rows, pred).len() ==> exists|k: int|
                0 <= k < rows.len() && rows[k] == #[trigger] selected(rows, pred)[n],
    decreases rows.len(),
{
    if rows.len() > 0 {
        lemma_selected_membership(rows.drop_last(), pred);
        assert forall|n: int|
            0 <= n < selected(rows, pred).len() implies exists|k: int|
            0 <= k < rows.len() && rows[k] == #[trigger] selected(rows, pred)[n] by {
            let s = selected(rows, pred);
            let sp = selected(rows.drop_last(), pred);
            if pred(rows.last()) && n == s.len() - 1 {
                assert(rows[rows.len() - 1] == s[n]);
            } else {
                assert(s[n] == sp[n]);
                let k = choose|k: int|
                    0 <= k < rows.drop_last().len() && #[trigger] rows.drop_last()[k] == sp[n];
                assert(rows[k] == sp[n]);
            }
        }
    }
}

/// There is a matching row exactly when something is selected.
pub proof fn lemma_selected_nonempty<T>(rows: Seq<T>, pred: spec_fn(T) -> bool)
    ensures
        (exists|k: int| 0 <= k < rows.len() && pred(#[trigger] rows[k])) <==> selected(
            rows,
            pred,
        ).len() > 0,
    decreases rows.len(),
{
    if rows.len() > 0 {
        lemma_selected_nonempty(rows.drop_last(), pred);
        if exists|k: int| 0 <= k < rows.len() && pred(#[trigger] rows[k]) {
            let k = choose|k: int| 0 <= k < rows.len() && pred(#[trigger] rows[k]);
            if k < rows.len() - 1 {
                assert(rows.drop_last()[k] == rows[k]);
            }
        }
        assert forall|k: int|
            0 <= k < rows.drop_last().len() && pred(
                #[trigger] rows.drop_last()[k],
            ) implies pred(rows[k]) by {}
    }
}


// ---------------------------------------------------------------------
// Row predicates
// ---------------------------------------------------------------------

/// Rows of the capability table owned by `id`.
pub open spec fn cap_owner_is(id: u128) -> spec_fn(CapabilityRow) -> bool {
    |r: CapabilityRow| r.agent_id == id
}

/// Rows of the metadata table owned by `id`.
pub open spec fn meta_owner_is(id: u128) -> spec_fn(MetadataRow) -> bool {
    |r: MetadataRow| r.agent_id == id
}

/// Root rows of agents with status `status`.
pub open spec fn root_status_is(status: AgentStatus) -> spec_fn(AgentRow) -> bool {
    |r: AgentRow| r.status == status
}

/// Root rows of agents of type `agent_type`.
pub open spec fn root_type_is(agent_type: AgentType) -> spec_fn(AgentRow) -> bool {
    |r: AgentRow| agent_type_eq(r.agent_type, agent_type)
}

/// The capability views owned by `id`, in row order.
pub open spec fn cap_views(rows: Seq<CapabilityRow>, id: u128) -> Seq<CapabilityView> {
    selected(rows, cap_owner_is(id)).map_values(|r: CapabilityRow| r.capability@)
}

/// The metadata entries owned by `id`, in row order.
pub open spec fn meta_entries(rows: Seq<MetadataRow>, id: u128) -> Seq<(String, String)> {
    selected(rows, meta_owner_is(id)).map_values(|r: MetadataRow| (r.key, r.value))
}

/// How `cap_views` grows when one row is appended.
pub proof fn lemma_cap_views_push(rows: Seq<CapabilityRow>, r: CapabilityRow, id: u128)
    ensures
        cap_views(rows.push(r), id) == if r.agent_id == id {
            cap_views(rows, id).push(r.capability@)
        } else {
            cap_views(rows, id)
        },
{
    lemma_selected_push(rows, cap_owner_is(id), r);
    if r.agent_id == id {
        assert(selected(rows, cap_owner_is(id)).push(r).map_values(|x: CapabilityRow| x.capability@)
            =~= cap_views(rows, id).push(r.capability@));
    }
}

/// How `meta_entries` grows when one row is appended.
pub proof fn lemma_meta_entries_push(rows: Seq<MetadataRow>, r: MetadataRow, id: u128)
    ensures
        meta_entries(rows.push(r), id) == if r.agent_id == id {
            meta_entries(rows, id).push((r.key, r.value))
        } else {
            meta_entries(rows, id)
        },
{
    lemma_selected_push(rows, meta_owner_is(id), r);
    if r.agent_id == id {
        assert(selected(rows, meta_owner_is(id)).push(r).map_values(
            |x: MetadataRow| (x.key, x.value),
        ) =~= meta_entries(rows, id).push((r.key, r.value)));
    }
}

// ---------------------------------------------------------------------
// The store
// ---------------------------------------------------------------------

/// In-memory agent store over normalized tables. The root table is kept
/// ordered by creation time, newest first, so index lookups return agents
/// in that order.
pub struct AgentRepository {
    pub agents: Vec<AgentRow>,
    pub capabilities: Vec<CapabilityRow>,
    pub configurations: Vec<ConfigurationRow>,
    pub metadata: Vec<MetadataRow>,
}

impl AgentRepository {
    /// Whether a root row with this identifier exists.
    pub open spec fn has_id(self, id: u128) -> bool {
        exists|k: int| 0 <= k < self.agents@.len() && #[trigger] self.agents@[k].id == id
    }

    /// Whether a root row with this name exists.
    pub open spec fn has_name(self, name: Seq<char>) -> bool {
        exists|k: int| 0 <= k < self.agents@.len() && #[trigger] self.agents@[k].name@ == name
    }

    /// Index of the root row carrying `id`; meaningful when `has_id`.
    pub open spec fn root_index_of(self, id: u128) -> int {
        choose|k: int| 0 <= k < self.agents@.len() && #[trigger] self.agents@[k].id == id
    }

    /// The root row carrying `id`; meaningful when `has_id`.
    pub open spec fn root_of(self, id: u128) -> AgentRow {
        self.agents@[self.root_index_of(id)]
    }

    /// Whether a configuration row owned by `id` exists.
    pub open spec fn has_configuration(self, id: u128) -> bool {
        exists|k: int|
            0 <= k < self.configurations@.len() && #[trigger] self.configurations@[k].agent_id == id
    }

    /// Index of the configuration row owned by `id`; meaningful when
    /// `has_configuration`.
    pub open spec fn configuration_index_of(self, id: u128) -> int {
        choose|k: int|
            0 <= k < self.configurations@.len() && #[trigger] self.configurations@[k].agent_id == id
    }

    /// The configuration owned by `id`; meaningful when `has_configuration`.
    pub open spec fn configuration_of(self, id: u128) -> AgentConfigurationView {
        self.configurations@[self.configuration_index_of(id)].configuration@
    }

    /// The capability views owned by `id`, in row order.
    pub open spec fn capabilities_of(self, id: u128) -> Seq<CapabilityView> {
        cap_views(self.capabilities@, id)
    }

    /// The metadata entries owned by `id`, in row order.
    pub open spec fn metadata_of(self, id: u128) -> Seq<(String, String)> {
        meta_entries(self.metadata@, id)
    }

    /// The whole aggregate assembled for `id`; meaningful when `has_id`.
    pub open spec fn abs_of(self, id: u128) -> AgentView {
        AgentView {
            id,
            name: self.root_of(id).name,
            description: self.root_of(id).description,
            agent_type: self.root_of(id).agent_type,
            status: self.root_of(id).status,
            capabilities: self.capabilities_of(id),
            configuration: self.configuration_of(id),
            metadata: self.metadata_of(id),
            created_at: self.root_of(id).created_at,
            updated_at: self.root_of(id).updated_at,
        }
    }

    /// Number of stored agents.
    pub open spec fn agent_count(self) -> nat {
        self.agents@.len()
    }

    /// Store invariant: identifiers and names unique across root rows; the
    /// root table ordered by creation time, newest first; update never
    /// before creation; exactly one configuration row per agent; dependent
    /// rows owned by existing agents; capability names and metadata keys
    /// unique within one agent.
    pub open spec fn wf(self) -> bool {
        &&& forall|i: int, j: int|
            #![trigger self.agents@[i], self.agents@[j]]
            0 <= i < j < self.agents@.len() ==> self.agents@[i].id != self.agents@[j].id
        &&& forall|i: int, j: int|
            #![trigger self.agents@[i], self.agents@[j]]
            0 <= i < j < self.agents@.len() ==> self.agents@[i].name@ != self.agents@[j].name@
        &&& forall|i: int, j: int|
            #![trigger self.agents@[i], self.agents@[j]]
            0 <= i <= j < self.agents@.len() ==> self.agents@[i].created_at
                >= self.agents@[j].created_at
        &&& forall|i: int|
            0 <= i < self.agents@.len() ==> (#[trigger] self.agents@[i]).created_at
                <= self.agents@[i].updated_at
        &&& forall|i: int|
            0 <= i < self.configurations@.len() ==> self.has_id(
                (#[trigger] self.configurations@[i]).agent_id,
            )
        &&& forall|i: int, j: int|
            #![trigger self.configurations@[i], self.configurations@[j]]
            0 <= i < j < self.configurations@.len() ==> self.configurations@[i].agent_id
                != self.configurations@[j].agent_id
        &&& forall|i: int|
            0 <= i < self.agents@.len() ==> self.has_configuration(
                (#[trigger] self.agents@[i]).id,
            )
        &&& forall|i: int|
            0 <= i < self.capabilities@.len() ==> self.has_id(
                (#[trigger] self.capabilities@[i]).agent_id,
            )
        &&& forall|i: int, j: int|
            #![trigger self.capabilities@[i], self.capabilities@[j]]
            0 <= i < j < self.capabilities@.len() && self.capabilities@[i].agent_id
                == self.capabilities@[j].agent_id ==> self.capabilities@[i].capability.name@
                != self.capabilities@[j].capability.name@
        &&& forall|i: int|
            0 <= i < self.metadata@.len() ==> self.has_id(
                (#[trigger] self.metadata@[i]).agent_id,
            )
        &&& forall|i: int, j: int|
            #![trigger self.metadata@[i], self.metadata@[j]]
            0 <= i < j < self.metadata@.len() && self.metadata@[i].agent_id
                == self.metadata@[j].agent_id ==> self.metadata@[i].key@ != self.metadata@[j].key@
    }

    /// An empty store.
    pub fn new() -> (r: Self)
        ensures
            r.wf(),
            r.agent_count() == 0,
            forall|id: u128| !r.has_id(id),
            forall|name: Seq<char>| !r.has_name(name),
    {
        AgentRepository {
            agents: Vec::new(),
            capabilities: Vec::new(),
            configurations: Vec::new(),
            metadata: Vec::new(),
        }
    }

    /// Number of stored agents.
    pub fn count(&self) -> (r: Result<usize, Error>)
        ensures
            r == Ok::<usize, Error>(self.agent_count() as usize),
            self.agent_count() <= usize::MAX,
    {
        Ok(self.agents.len())
    }
}



/// Selecting among already-selected rows with a stronger predicate is
/// selecting with the stronger predicate alone.
pub proof fn lemma_selected_of_selected<T>(rows: Seq<T>, p: spec_fn(T) -> bool, q: spec_fn(T) -> bool)
    requires
        forall|t: T| #[trigger] q(t) ==> p(t),
    ensures
        selected(selected(rows, p), q) == selected(rows, q),
    decreases rows.len(),
{
    if rows.len() > 0 {
        lemma_selected_of_selected(rows.drop_last(), p, q);
        if p(rows.last()) {
            lemma_selected_push(selected(rows.drop_last(), p), q, rows.last());
        }
    }
}

/// A pairwise property of the rows carries over to the selected rows.
pub proof fn lemma_selected_pairwise<T>(
    rows: Seq<T>,
    pred: spec_fn(T) -> bool,
    rel: spec_fn(T, T) -> bool,
)
    requires
        forall|i: int, j: int|
            #![trigger rows[i], rows[j]]
            0 <= i < j < rows.len() ==> rel(rows[i], rows[j]),
    ensures
        forall|i: int, j: int|
            #![trigger selected(rows, pred)[i], selected(rows, pred)[j]]
            0 <= i < j < selected(rows, pred).len() ==> rel(
                selected(rows, pred)[i],
                selected(rows, pred)[j],
            ),
    decreases rows.len(),
{
    if rows.len() > 0 {
        let prev = rows.drop_last();
        lemma_selected_pairwise(prev, pred, rel);
        lemma_selected_membership(prev, pred);
        let s = selected(rows, pred);
        let sp = selected(prev, pred);
        assert forall|i: int, j: int|
            0 <= i < j < s.len() implies rel(#[trigger] s[i], #[trigger] s[j]) by {
            if pred(rows.last()) && j == s.len() - 1 {
                assert(s[i] == sp[i]);
                let k = choose|k: int| 0 <= k < prev.len() && prev[k] == sp[i];
                assert(rows[k] == s[i]);
                assert(rel(rows[k], rows[rows.len() - 1]));
            } else {
                assert(s[i] == sp[i] && s[j] == sp[j]);
            }
        }
    }
}

// ---------------------------------------------------------------------
// Row maintenance helpers
// ---------------------------------------------------------------------

/// Capability rows that survive removing agent `id`.
pub open spec fn cap_kept(id: u128) -> spec_fn(CapabilityRow) -> bool {
    |r: CapabilityRow| r.agent_id != id
}

/// Configuration rows that survive removing agent `id`.
pub open spec fn cfg_kept(id: u128) -> spec_fn(ConfigurationRow) -> bool {
    |r: ConfigurationRow| r.agent_id != id
}

/// Metadata rows that survive removing agent `id`.
pub open spec fn meta_kept(id: u128) -> spec_fn(MetadataRow) -> bool {
    |r: MetadataRow| r.agent_id != id
}

/// Removes every capability row owned by `id`, in place, leaving all
/// other rows in order.
fn remove_capability_rows(caps: &mut Vec<CapabilityRow>, id: u128)
    ensures
        final(caps)@ == selected(old(caps)@, cap_kept(id)),
        cap_views(final(caps)@, id) == Seq::<CapabilityView>::empty(),
        forall|j: u128| j != id ==> cap_views(final(caps)@, j) == cap_views(old(caps)@, j),
{
    let ghost orig = caps@;
    let mut i: usize = 0;
    let ghost mut n: int = 0;
    while i < caps.len()
        invariant
            0 <= n <= orig.len(),
            i == selected(orig.subrange(0, n), cap_kept(id)).len(),
            caps@ == selected(orig.subrange(0, n), cap_kept(id)) + orig.subrange(n, orig.len() as int),
            i <= caps@.len(),
        decreases caps@.len() - i,
    {
        proof {
            assert(caps@[i as int] == orig[n]);
            assert(orig.subrange(0, n + 1) =~= orig.subrange(0, n).push(orig[n]));
            lemma_selected_push(orig.subrange(0, n), cap_kept(id), orig[n]);
        }
        if caps[i].agent_id != id {
            i = i + 1;
            proof {
                assert(caps@ =~= selected(orig.subrange(0, n + 1), cap_kept(id)) + orig.subrange(
                    n + 1,
                    orig.len() as int,
                ));
                n = n + 1;
            }
        } else {
            caps.remove(i);
            proof {
                assert(caps@ =~= selected(orig.subrange(0, n + 1), cap_kept(id)) + orig.subrange(
                    n + 1,
                    orig.len() as int,
                ));
                n = n + 1;
            }
        }
    }
    proof {
        assert(n == orig.len());
        assert(orig.subrange(0, orig.len() as int) =~= orig);
        assert(orig.subrange(orig.len() as int, orig.len() as int) =~= Seq::<CapabilityRow>::empty());
        assert(caps@ =~= selected(orig, cap_kept(id)));
        lemma_selected_membership(orig, cap_kept(id));
        lemma_selected_absent(selected(orig, cap_kept(id)), cap_owner_is(id));
        assert(cap_views(selected(orig, cap_kept(id)), id) =~= Seq::<CapabilityView>::empty());
        assert forall|j: u128| j != id implies cap_views(selected(orig, cap_kept(id)), j)
            == cap_views(orig, j) by {
            assert forall|t: CapabilityRow| #[trigger] cap_owner_is(j)(t) implies cap_kept(id)(t) by {}
            lemma_selected_of_selected(orig, cap_kept(id), cap_owner_is(j));
        }
    }
}


/// Removes every metadata row owned by `id`, in place, leaving all other
/// rows in order.
fn remove_metadata_rows(rows: &mut Vec<MetadataRow>, id: u128)
    ensures
        final(rows)@ == selected(old(rows)@, meta_kept(id)),
        meta_entries(final(rows)@, id) == Seq::<(String, String)>::empty(),
        forall|j: u128| j != id ==> meta_entries(final(rows)@, j) == meta_entries(old(rows)@, j),
{
    let ghost orig = rows@;
    let mut i: usize = 0;
    let ghost mut n: int = 0;
    while i < rows.len()
        invariant
            0 <= n <= orig.len(),
            i == selected(orig.subrange(0, n), meta_kept(id)).len(),
            rows@ == selected(orig.subrange(0, n), meta_kept(id)) + orig.subrange(n, orig.len() as int),
            i <= rows@.len(),
        decreases rows@.len() - i,
    {
        proof {
            assert(rows@[i as int] == orig[n]);
            assert(orig.subrange(0, n + 1) =~= orig.subrange(0, n).push(orig[n]));
            lemma_selected_push(orig.subrange(0, n), meta_kept(id), orig[n]);
        }
        if rows[i].agent_id != id {
            i = i + 1;
            proof {
                assert(rows@ =~= selected(orig.subrange(0, n + 1), meta_kept(id)) + orig.subrange(
                    n + 1,
                    orig.len() as int,
                ));
                n = n + 1;
            }
        } else {
            rows.remove(i);
            proof {
                assert(rows@ =~= selected(orig.subrange(0, n + 1), meta_kept(id)) + orig.subrange(
                    n + 1,
                    orig.len() as int,
                ));
                n = n + 1;
            }
        }
    }
    proof {
        assert(orig.subrange(0, orig.len() as int) =~= orig);
        assert(rows@ =~= selected(orig, meta_kept(id)));
        lemma_selected_membership(orig, meta_kept(id));
        lemma_selected_absent(selected(orig, meta_kept(id)), meta_owner_is(id));
        assert(meta_entries(selected(orig, meta_kept(id)), id) =~= Seq::<(String, String)>::empty());
        assert forall|j: u128| j != id implies meta_entries(selected(orig, meta_kept(id)), j)
            == meta_entries(orig, j) by {
            assert forall|t: MetadataRow| #[trigger] meta_owner_is(j)(t) implies meta_kept(id)(t) by {}
            lemma_selected_of_selected(orig, meta_kept(id), meta_owner_is(j));
        }
    }
}

/// Removes the configuration row owned by `id`, in place, leaving all
/// other rows in order.
fn remove_configuration_rows(rows: &mut Vec<ConfigurationRow>, id: u128)
    ensures
        final(rows)@ == selected(old(rows)@, cfg_kept(id)),
{
    let ghost orig = rows@;
    let mut i: usize = 0;
    let ghost mut n: int = 0;
    while i < rows.len()
        invariant
            0 <= n <= orig.len(),
            i == selected(orig.subrange(0, n), cfg_kept(id)).len(),
            rows@ == selected(orig.subrange(0, n), cfg_kept(id)) + orig.subrange(n, orig.len() as int),
            i <= rows@.len(),
        decreases rows@.len() - i,
    {
        proof {
            assert(rows@[i as int] == orig[n]);
            assert(orig.subrange(0, n + 1) =~= orig.subrange(0, n).push(orig[n]));
            lemma_selected_push(orig.subrange(0, n), cfg_kept(id), orig[n]);
        }
        if rows[i].agent_id != id {
            i = i + 1;
            proof {
                assert(rows@ =~= selected(orig.subrange(0, n + 1), cfg_kept(id)) + orig.subrange(
                    n + 1,
                    orig.len() as int,
                ));
                n = n + 1;
            }
        } else {
            rows.remove(i);
            proof {
                assert(rows@ =~= selected(orig.subrange(0, n + 1), cfg_kept(id)) + orig.subrange(
                    n + 1,
                    orig.len() as int,
                ));
                n = n + 1;
            }
        }
    }
    proof {
        assert(orig.subrange(0, orig.len() as int) =~= orig);
        assert(rows@ =~= selected(orig, cfg_kept(id)));
    }
}

/// Appends one capability row per item, all owned by `id`, preserving
/// every other agent's rows.
fn insert_capability_rows(caps: &mut Vec<CapabilityRow>, id: u128, items: &Vec<Capability>)
    ensures
        final(caps)@.len() == old(caps)@.len() + items@.len(),
        forall|k: int| 0 <= k < old(caps)@.len() ==> #[trigger] final(caps)@[k] == old(caps)@[k],
        forall|k: int|
            0 <= k < items@.len() ==> (#[trigger] final(caps)@[old(caps)@.len() + k]).agent_id == id,
        forall|k: int|
            0 <= k < items@.len() ==> (#[trigger] final(caps)@[old(caps)@.len() + k]).capability@
                == items@[k]@,
        cap_views(final(caps)@, id) == cap_views(old(caps)@, id) + items@.map_values(
            |c: Capability| c@,
        ),
        forall|j: u128| j != id ==> cap_views(final(caps)@, j) == cap_views(old(caps)@, j),
{
    let ghost orig = caps@;
    let mut i: usize = 0;
    while i < items.len()
        invariant
            i <= items@.len(),
            caps@.len() == orig.len() + i,
            forall|k: int| 0 <= k < orig.len() ==> #[trigger] caps@[k] == orig[k],
            forall|k: int| 0 <= k < i ==> (#[trigger] caps@[orig.len() + k]).agent_id == id,
            forall|k: int| 0 <= k < i ==> (#[trigger] caps@[orig.len() + k]).capability@ == items@[k]@,
            cap_views(caps@, id) == cap_views(orig, id) + items@.subrange(0, i as int).map_values(
                |c: Capability| c@,
            ),
            forall|j: u128| j != id ==> cap_views(caps@, j) == cap_views(orig, j),
        decreases items@.len() - i,
    {
        let ghost before = caps@;
        let row = CapabilityRow { agent_id: id, capability: items[i].clone() };
        caps.push(row);
        proof {
            lemma_cap_views_push(before, row, id);
            assert(cap_views(before, id).push(row.capability@) =~= cap_views(orig, id)
                + items@.subrange(0, i + 1 as int).map_values(|c: Capability| c@));
            assert forall|j: u128| j != id implies cap_views(caps@, j) == cap_views(orig, j) by {
                lemma_cap_views_push(before, row, j);
            }
        }
        i = i + 1;
    }
    proof {
        assert(items@.subrange(0, items@.len() as int) =~= items@);
    }
}

/// Appends one metadata row per entry, all owned by `id`, preserving every
/// other agent's rows.
fn insert_metadata_rows(rows: &mut Vec<MetadataRow>, id: u128, entries: &Vec<(String, String)>)
    ensures
        final(rows)@.len() == old(rows)@.len() + entries@.len(),
        forall|k: int| 0 <= k < old(rows)@.len() ==> #[trigger] final(rows)@[k] == old(rows)@[k],
        forall|k: int|
            0 <= k < entries@.len() ==> (#[trigger] final(rows)@[old(rows)@.len() + k]).agent_id
                == id,
        forall|k: int|
            0 <= k < entries@.len() ==> (#[trigger] final(rows)@[old(rows)@.len() + k]).key
                == entries@[k].0 && final(rows)@[old(rows)@.len() + k].value == entries@[k].1,
        meta_entries(final(rows)@, id) == meta_entries(old(rows)@, id) + entries@,
        forall|j: u128| j != id ==> meta_entries(final(rows)@, j) == meta_entries(old(rows)@, j),
{
    let ghost orig = rows@;
    let mut i: usize = 0;
    while i < entries.len()
        invariant
            i <= entries@.len(),
            rows@.len() == orig.len() + i,
            forall|k: int| 0 <= k < orig.len() ==> #[trigger] rows@[k] == orig[k],
            forall|k: int| 0 <= k < i ==> (#[trigger] rows@[orig.len() + k]).agent_id == id,
            forall|k: int|
                0 <= k < i ==> (#[trigger] rows@[orig.len() + k]).key == entries@[k].0
                    && rows@[orig.len() + k].value == entries@[k].1,
            meta_entries(rows@, id) == meta_entries(orig, id) + entries@.subrange(0, i as int),
            forall|j: u128| j != id ==> meta_entries(rows@, j) == meta_entries(orig, j),
        decreases entries@.len() - i,
    {
        let ghost before = rows@;
        let key = entries[i].0.clone();
        let value = entries[i].1.clone();
        let row = MetadataRow { agent_id: id, key, value };
        proof {
            assert((row.key, row.value) == entries@[i as int]);
        }
        rows.push(row);
        proof {
            lemma_meta_entries_push(before, row, id);
            assert(meta_entries(before, id).push((row.key, row.value)) =~= meta_entries(orig, id)
                + entries@.subrange(0, i + 1 as int));
            assert forall|j: u128| j != id implies meta_entries(rows@, j) == meta_entries(orig, j) by {
                lemma_meta_entries_push(before, row, j);
            }
        }
        i = i + 1;
    }
    proof {
        assert(entries@.subrange(0, entries@.len() as int) =~= entries@);
    }
}

impl AgentRepository {
    /// A root row found at an index is the root row of its identifier.
    pub proof fn lemma_root_lookup(self, id: u128, k: int)
        requires
            self.wf(),
            0 <= k < self.agents@.len(),
            self.agents@[k].id == id,
        ensures
            self.has_id(id),
            self.root_index_of(id) == k,
            self.root_of(id) == self.agents@[k],
    {
        assert(self.has_id(id));
        let c = self.root_index_of(id);
        if c < k {
            assert(self.agents@[c].id != self.agents@[k].id);
        } else if c > k {
            assert(self.agents@[k].id != self.agents@[c].id);
        }
    }

    /// A configuration row found at an index is the configuration row of
    /// its owner.
    pub proof fn lemma_configuration_lookup(self, id: u128, k: int)
        requires
            self.wf(),
            0 <= k < self.configurations@.len(),
            self.configurations@[k].agent_id == id,
        ensures
            self.has_configuration(id),
            self.configuration_index_of(id) == k,
            self.configuration_of(id) == self.configurations@[k].configuration@,
    {
        assert(self.has_configuration(id));
        let c = self.configuration_index_of(id);
        if c < k {
            assert(self.configurations@[c].agent_id != self.configurations@[k].agent_id);
        } else if c > k {
            assert(self.configurations@[k].agent_id != self.configurations@[c].agent_id);
        }
    }
}



/// Relation between the tables before and after `create` stores
/// `agent`: the root row inserted at `pos`, the configuration row
/// appended, and the capability and metadata rows appended in order.
pub open spec fn create_tables_rel(
    pre: AgentRepository,
    post: AgentRepository,
    agent: Agent,
    pos: int,
    row: AgentRow,
    cfg_row: ConfigurationRow,
) -> bool {
    let id = agent.id.0;
    let nc = pre.capabilities@.len() as int;
    let nm = pre.metadata@.len() as int;
    &&& 0 <= pos <= pre.agents@.len()
    &&& row.id == id
    &&& row.name == agent.name
    &&& row.description == agent.description
    &&& row.agent_type == agent.agent_type
    &&& row.status == agent.status
    &&& row.created_at == agent.created_at
    &&& row.updated_at == agent.updated_at
    &&& post.agents@ == pre.agents@.insert(pos, row)
    &&& cfg_row.agent_id == id
    &&& cfg_row.configuration@ == agent.configuration@
    &&& post.configurations@ == pre.configurations@.push(cfg_row)
    &&& post.capabilities@.len() == nc + agent.capabilities@.len()
    &&& forall|k: int| 0 <= k < nc ==> #[trigger] post.capabilities@[k] == pre.capabilities@[k]
    &&& forall|k: int|
        0 <= k < agent.capabilities@.len() ==> (#[trigger] post.capabilities@[nc + k]).agent_id
            == id
    &&& forall|k: int|
        0 <= k < agent.capabilities@.len() ==> (#[trigger] post.capabilities@[nc + k]).capability@
            == agent.capabilities@[k]@
    &&& cap_views(post.capabilities@, id) == cap_views(pre.capabilities@, id)
        + agent.capabilities@.map_values(|c: Capability| c@)
    &&& forall|j: u128| j != id ==> cap_views(post.capabilities@, j) == cap_views(
        pre.capabilities@,
        j,
    )
    &&& post.metadata@.len() == nm + agent.metadata@.len()
    &&& forall|k: int| 0 <= k < nm ==> #[trigger] post.metadata@[k] == pre.metadata@[k]
    &&& forall|k: int|
        0 <= k < agent.metadata@.len() ==> (#[trigger] post.metadata@[nm + k]).agent_id == id
    &&& forall|k: int|
        0 <= k < agent.metadata@.len() ==> (#[trigger] post.metadata@[nm + k]).key
            == agent.metadata@[k].0 && post.metadata@[nm + k].value == agent.metadata@[k].1
    &&& meta_entries(post.metadata@, id) == meta_entries(pre.metadata@, id) + agent.metadata@
    &&& forall|j: u128| j != id ==> meta_entries(post.metadata@, j) == meta_entries(
        pre.metadata@,
        j,
    )
}

/// What the conflict and position scans of `create` establish.
pub open spec fn create_scan_facts(pre: AgentRepository, agent: Agent, pos: int) -> bool {
    &&& forall|k: int|
        0 <= k < pre.agents@.len() ==> (#[trigger] pre.agents@[k]).id != agent.id.0
            && pre.agents@[k].name@ != agent.name@
    &&& forall|k: int| 0 <= k < pos ==> (#[trigger] pre.agents@[k]).created_at > agent.created_at
    &&& pos == pre.agents@.len() || pre.agents@[pos].created_at <= agent.created_at
}

/// After `create`'s table changes, the store invariant holds again and
/// presence of identifiers, names and configurations extends by exactly
/// the new aggregate.
#[verifier::rlimit(100)]
proof fn lemma_create_wf(
    pre: AgentRepository,
    post: AgentRepository,
    agent: Agent,
    pos: int,
    row: AgentRow,
    cfg_row: ConfigurationRow,
)
    requires
        pre.wf(),
        agent@.wf(),
        create_scan_facts(pre, agent, pos),
        create_tables_rel(pre, post, agent, pos, row, cfg_row),
    ensures
        post.wf(),
        forall|j: u128| post.has_id(j) == (pre.has_id(j) || j == agent.id.0),
        forall|n: Seq<char>| post.has_name(n) == (pre.has_name(n) || n == agent.name@),
        forall|j: u128| post.has_configuration(j) == (pre.has_configuration(j) || j == agent.id.0),
{
    let id = agent.id.0;
    pre.agents@.insert_ensures(pos, row);

    assert forall|j: u128| post.has_id(j) == (pre.has_id(j) || j == id) by {
        if pre.has_id(j) {
            let k = choose|k: int| 0 <= k < pre.agents@.len() && #[trigger] pre.agents@[k].id == j;
            if k < pos {
                assert(post.agents@[k].id == j);
            } else {
                assert(post.agents@[k + 1].id == j);
            }
        }
        if j == id {
            assert(post.agents@[pos].id == j);
        }
        if post.has_id(j) && j != id {
            let k = choose|k: int|
                0 <= k < post.agents@.len() && #[trigger] post.agents@[k].id == j;
            if k < pos {
                assert(pre.agents@[k].id == j);
            } else {
                assert(k != pos);
                assert(pre.agents@[k - 1].id == j);
            }
        }
    }

    assert forall|n: Seq<char>| post.has_name(n) == (pre.has_name(n) || n == agent.name@) by {
        if pre.has_name(n) {
            let k = choose|k: int|
                0 <= k < pre.agents@.len() && #[trigger] pre.agents@[k].name@ == n;
            if k < pos {
                assert(post.agents@[k].name@ == n);
            } else {
                assert(post.agents@[k + 1].name@ == n);
            }
        }
        if n == agent.name@ {
            assert(post.agents@[pos].name@ == n);
        }
        if post.has_name(n) && n != agent.name@ {
            let k = choose|k: int|
                0 <= k < post.agents@.len() && #[trigger] post.agents@[k].name@ == n;
            if k < pos {
                assert(pre.agents@[k].name@ == n);
            } else {
                assert(k != pos);
                assert(pre.agents@[k - 1].name@ == n);
            }
        }
    }

    assert forall|j: u128| post.has_configuration(j) == (pre.has_configuration(j) || j == id) by {
        if pre.has_configuration(j) {
            let k = choose|k: int|
                0 <= k < pre.configurations@.len() && #[trigger] pre.configurations@[k].agent_id
                    == j;
            assert(post.configurations@[k].agent_id == j);
        }
        if j == id {
            assert(post.configurations@[pre.configurations@.len() as int].agent_id == j);
        }
        if post.has_configuration(j) && j != id {
            let k = choose|k: int|
                0 <= k < post.configurations@.len() && #[trigger] post.configurations@[k].agent_id
                    == j;
            assert(k != pre.configurations@.len() as int);
            assert(pre.configurations@[k].agent_id == j);
        }
    }

    assert forall|a: int, b: int|
        #![trigger post.agents@[a], post.agents@[b]]
        0 <= a < b < post.agents@.len() implies post.agents@[a].id != post.agents@[b].id
        && post.agents@[a].name@ != post.agents@[b].name@ by {
        if a == pos {
            assert(post.agents@[b] == pre.agents@[b - 1]);
        } else if b == pos {
            assert(post.agents@[a] == pre.agents@[a]);
        } else {
            let pa = if a < pos { a } else { a - 1 };
            let pb = if b < pos { b } else { b - 1 };
            assert(post.agents@[a] == pre.agents@[pa]);
            assert(post.agents@[b] == pre.agents@[pb]);
        }
    }

    assert forall|a: int, b: int|
        #![trigger post.agents@[a], post.agents@[b]]
        0 <= a <= b < post.agents@.len() implies post.agents@[a].created_at
        >= post.agents@[b].created_at by {
        if a == pos {
            if b > pos {
                assert(pre.agents@[pos].created_at <= agent.created_at);
                assert(pre.agents@[pos].created_at >= pre.agents@[b - 1].created_at);
            }
        } else if b == pos {
            if a < pos {
                assert(post.agents@[a].created_at > agent.created_at);
            }
        } else {
            let pa = if a < pos { a } else { a - 1 };
            let pb = if b < pos { b } else { b - 1 };
            assert(post.agents@[a] == pre.agents@[pa]);
            assert(post.agents@[b] == pre.agents@[pb]);
        }
    }

    assert forall|k: int|
        0 <= k < post.agents@.len() implies (#[trigger] post.agents@[k]).created_at
        <= post.agents@[k].updated_at by {
        if k != pos {
            let pk = if k < pos { k } else { k - 1 };
            assert(post.agents@[k] == pre.agents@[pk]);
        }
    }

    assert forall|k: int|
        0 <= k < post.configurations@.len() implies post.has_id(
        (#[trigger] post.configurations@[k]).agent_id,
    ) by {
        if k < pre.configurations@.len() {
            assert(pre.has_id(pre.configurations@[k].agent_id));
        }
    }

    assert forall|a: int, b: int|
        #![trigger post.configurations@[a], post.configurations@[b]]
        0 <= a < b < post.configurations@.len() implies post.configurations@[a].agent_id
        != post.configurations@[b].agent_id by {
        if b < pre.configurations@.len() {
        } else {
            assert(pre.has_id(pre.configurations@[a].agent_id));
        }
    }

    assert forall|k: int|
        0 <= k < post.agents@.len() implies post.has_configuration(
        (#[trigger] post.agents@[k]).id,
    ) by {
        if k != pos {
            let pk = if k < pos { k } else { k - 1 };
            assert(pre.has_configuration(pre.agents@[pk].id));
        }
    }

    let nc = pre.capabilities@.len() as int;
    assert forall|k: int|
        0 <= k < post.capabilities@.len() implies post.has_id(
        (#[trigger] post.capabilities@[k]).agent_id,
    ) by {
        if k < nc {
            assert(post.capabilities@[k] == pre.capabilities@[k]);
            assert(pre.has_id(pre.capabilities@[k].agent_id));
        } else {
            let t = k - nc;
            assert(post.capabilities@[nc + t].agent_id == id);
        }
    }

    assert forall|a: int, b: int|
        #![trigger post.capabilities@[a], post.capabilities@[b]]
        0 <= a < b < post.capabilities@.len() && post.capabilities@[a].agent_id
        == post.capabilities@[b].agent_id implies post.capabilities@[a].capability.name@
        != post.capabilities@[b].capability.name@ by {
        if b < nc {
            assert(post.capabilities@[a] == pre.capabilities@[a]);
            assert(post.capabilities@[b] == pre.capabilities@[b]);
        } else if a < nc {
            let t = b - nc;
            assert(pre.has_id(pre.capabilities@[a].agent_id));
            assert(post.capabilities@[a] == pre.capabilities@[a]);
            assert(post.capabilities@[nc + t].agent_id == id);
        } else {
            let ta = a - nc;
            let tb = b - nc;
            assert(post.capabilities@[nc + ta].capability@ == agent.capabilities@[ta]@);
            assert(post.capabilities@[nc + tb].capability@ == agent.capabilities@[tb]@);
            assert(agent@.capabilities[ta] == agent.capabilities@[ta]@);
            assert(agent@.capabilities[tb] == agent.capabilities@[tb]@);
            assert(agent@.capabilities[ta].name@ != agent@.capabilities[tb].name@);
        }
    }

    let nm = pre.metadata@.len() as int;
    assert forall|k: int|
        0 <= k < post.metadata@.len() implies post.has_id(
        (#[trigger] post.metadata@[k]).agent_id,
    ) by {
        if k < nm {
            assert(post.metadata@[k] == pre.metadata@[k]);
            assert(pre.has_id(pre.metadata@[k].agent_id));
        } else {
            let t = k - nm;
            assert(post.metadata@[nm + t].agent_id == id);
        }
    }

    assert forall|a: int, b: int|
        #![trigger post.metadata@[a], post.metadata@[b]]
        0 <= a < b < post.metadata@.len() && post.metadata@[a].agent_id
        == post.metadata@[b].agent_id implies post.metadata@[a].key@
        != post.metadata@[b].key@ by {
        if b < nm {
            assert(post.metadata@[a] == pre.metadata@[a]);
            assert(post.metadata@[b] == pre.metadata@[b]);
        } else if a < nm {
            let t = b - nm;
            assert(pre.has_id(pre.metadata@[a].agent_id));
            assert(post.metadata@[a] == pre.metadata@[a]);
            assert(post.metadata@[nm + t].agent_id == id);
        } else {
            let ta = a - nm;
            let tb = b - nm;
            assert(post.metadata@[nm + ta].key == agent.metadata@[ta].0);
            assert(post.metadata@[nm + tb].key == agent.metadata@[tb].0);
            assert(agent@.metadata[ta].0@ != agent@.metadata[tb].0@);
        }
    }
}

/// After `create`'s table changes, the new aggregate reads back exactly
/// as supplied and every other aggregate reads back unchanged.
proof fn lemma_create_reads(
    pre: AgentRepository,
    post: AgentRepository,
    agent: Agent,
    pos: int,
    row: AgentRow,
    cfg_row: ConfigurationRow,
)
    requires
        pre.wf(),
        post.wf(),
        agent@.wf(),
        create_scan_facts(pre, agent, pos),
        create_tables_rel(pre, post, agent, pos, row, cfg_row),
    ensures
        post.has_id(agent.id.0),
        post.abs_of(agent.id.0) == agent@,
        forall|j: u128| j != agent.id.0 && pre.has_id(j) ==> post.abs_of(j) == pre.abs_of(j),
        forall|j: u128| j != agent.id.0 ==> post.has_id(j) == pre.has_id(j),
{
    let id = agent.id.0;
    pre.agents@.insert_ensures(pos, row);

    assert forall|k: int|
        0 <= k < pre.capabilities@.len() implies (#[trigger] pre.capabilities@[k]).agent_id
        != id by {
        assert(pre.has_id(pre.capabilities@[k].agent_id));
    }
    lemma_selected_absent(pre.capabilities@, cap_owner_is(id));
    assert(cap_views(pre.capabilities@, id) =~= Seq::<CapabilityView>::empty());
    assert forall|k: int|
        0 <= k < pre.metadata@.len() implies (#[trigger] pre.metadata@[k]).agent_id != id by {
        assert(pre.has_id(pre.metadata@[k].agent_id));
    }
    lemma_selected_absent(pre.metadata@, meta_owner_is(id));
    assert(meta_entries(pre.metadata@, id) =~= Seq::<(String, String)>::empty());

    assert(post.agents@[pos].id == id);
    post.lemma_root_lookup(id, pos);
    post.lemma_configuration_lookup(id, pre.configurations@.len() as int);
    assert(cap_views(post.capabilities@, id) =~= agent.capabilities@.map_values(
        |c: Capability| c@,
    ));
    assert(meta_entries(post.metadata@, id) =~= agent.metadata@);
    assert(post.abs_of(id) == agent@);

    assert forall|j: u128| j != id && pre.has_id(j) implies post.abs_of(j) == pre.abs_of(j) by {
        let k = choose|k: int| 0 <= k < pre.agents@.len() && #[trigger] pre.agents@[k].id == j;
        let k2 = if k < pos { k } else { k + 1 };
        assert(post.agents@[k2] == pre.agents@[k]);
        pre.lemma_root_lookup(j, k);
        post.lemma_root_lookup(j, k2);
        assert(pre.has_configuration(j));
        let c = choose|c: int|
            0 <= c < pre.configurations@.len() && #[trigger] pre.configurations@[c].agent_id == j;
        pre.lemma_configuration_lookup(j, c);
        assert(post.configurations@[c] == pre.configurations@[c]);
        post.lemma_configuration_lookup(j, c);
    }

    assert forall|j: u128| j != id implies post.has_id(j) == pre.has_id(j) by {
        if pre.has_id(j) {
            let k = choose|k: int| 0 <= k < pre.agents@.len() && #[trigger] pre.agents@[k].id == j;
            let k2 = if k < pos { k } else { k + 1 };
            assert(post.agents@[k2].id == j);
        }
        if post.has_id(j) {
            let k = choose|k: int|
                0 <= k < post.agents@.len() && #[trigger] post.agents@[k].id == j;
            if k < pos {
                assert(pre.agents@[k].id == j);
            } else {
                assert(k != pos);
                assert(pre.agents@[k - 1].id == j);
            }
        }
    }
}

impl AgentRepository {
    /// Stores a new aggregate: the root row, one row per capability, the
    /// configuration row and one row per metadata entry, all visible
    /// together or not at all. A duplicate identifier or name is a
    /// `Conflict` and leaves the store untouched. The supplied aggregate is
    /// echoed back unchanged.
    #[verifier::loop_isolation(false)]
    pub fn create(&mut self, agent: &Agent) -> (r: Result<Agent, Error>)
        requires
            old(self).wf(),
            agent@.wf(),
        ensures
            final(self).wf(),
            match r {
                Ok(stored) => {
                    &&& !old(self).has_id(agent.id.0)
                    &&& !old(self).has_name(agent.name@)
                    &&& stored@ == agent@
                    &&& final(self).has_id(agent.id.0)
                    &&& final(self).abs_of(agent.id.0) == agent@
                    &&& final(self).agent_count() == old(self).agent_count() + 1
                    &&& final(self).has_name(agent.name@)
                    &&& forall|j: u128|
                        j != agent.id.0 ==> final(self).has_id(j) == old(self).has_id(j)
                    &&& forall|j: u128|
                        j != agent.id.0 && old(self).has_id(j) ==> final(self).abs_of(j) == old(
                            self,
                        ).abs_of(j)
                    &&& forall|n: Seq<char>|
                        n != agent.name@ ==> final(self).has_name(n) == old(self).has_name(n)
                },
                Err(e) => {
                    &&& e is Conflict
                    &&& old(self).has_id(agent.id.0) || old(self).has_name(agent.name@)
                    &&& *final(self) == *old(self)
                },
            },
    {
        let ghost pre = *self;
        let id: u128 = agent.id.0;

        // Reject a duplicate identifier or name before touching any table.
        let mut i: usize = 0;
        while i < self.agents.len()
            invariant
                i <= self.agents@.len(),
                forall|k: int|
                    0 <= k < i ==> (#[trigger] self.agents@[k]).id != id && self.agents@[k].name@
                        != agent.name@,
            decreases self.agents@.len() - i,
        {
            if self.agents[i].id == id || self.agents[i].name.eq(&agent.name) {
                return Err(Error::Conflict("agent id or name already stored".to_owned()));
            }
            i = i + 1;
        }
        assert(!pre.has_id(id));
        assert(!pre.has_name(agent.name@));

        // The root table stays ordered by creation time, newest first.
        let mut pos: usize = 0;
        while pos < self.agents.len() && self.agents[pos].created_at > agent.created_at
            invariant
                pos <= self.agents@.len(),
                forall|k: int|
                    0 <= k < pos ==> (#[trigger] self.agents@[k]).created_at > agent.created_at,
            decreases self.agents@.len() - pos,
        {
            pos = pos + 1;
        }
        assert(create_scan_facts(pre, *agent, pos as int));

        let row = AgentRow {
            id,
            name: agent.name.clone(),
            description: agent.description.clone(),
            agent_type: agent.agent_type.clone(),
            status: agent.status,
            created_at: agent.created_at,
            updated_at: agent.updated_at,
        };
        self.agents.insert(pos, row);

        let cfg_row = ConfigurationRow { agent_id: id, configuration: agent.configuration.clone() };
        self.configurations.push(cfg_row);

        insert_capability_rows(&mut self.capabilities, id, &agent.capabilities);
        insert_metadata_rows(&mut self.metadata, id, &agent.metadata);

        proof {
            assert(create_tables_rel(pre, *self, *agent, pos as int, row, cfg_row));
            lemma_create_wf(pre, *self, *agent, pos as int, row, cfg_row);
            lemma_create_reads(pre, *self, *agent, pos as int, row, cfg_row);
        }

        Ok(agent.clone())
    }
}


impl AgentRepository {
    /// Index of the root row whose name reads `n`; meaningful when
    /// `has_name`.
    pub open spec fn name_index_of(self, n: Seq<char>) -> int {
        choose|k: int| 0 <= k < self.agents@.len() && #[trigger] self.agents@[k].name@ == n
    }

    /// Identifier of the agent whose name reads `n`; meaningful when
    /// `has_name`.
    pub open spec fn id_of_name(self, n: Seq<char>) -> u128 {
        self.agents@[self.name_index_of(n)].id
    }

    /// A root row found by name is the root row of that name.
    pub proof fn lemma_name_lookup(self, n: Seq<char>, k: int)
        requires
            self.wf(),
            0 <= k < self.agents@.len(),
            self.agents@[k].name@ == n,
        ensures
            self.has_name(n),
            self.name_index_of(n) == k,
            self.id_of_name(n) == self.agents@[k].id,
    {
        assert(self.has_name(n));
        let c = self.name_index_of(n);
        if c < k {
            assert(self.agents@[c].name@ != self.agents@[k].name@);
        } else if c > k {
            assert(self.agents@[k].name@ != self.agents@[c].name@);
        }
    }

    /// Reassembles the aggregate whose root row stands at `root_index`
    /// from the four tables.
    #[verifier::loop_isolation(false)]
    fn assemble(&self, root_index: usize) -> (a: Agent)
        requires
            self.wf(),
            root_index < self.agents@.len(),
        ensures
            a@ == self.abs_of(self.agents@[root_index as int].id),
            a@.wf(),
    {
        let id: u128 = self.agents[root_index].id;
        proof {
            self.lemma_root_lookup(id, root_index as int);
        }

        // Full capability set.
        let mut capabilities: Vec<Capability> = Vec::new();
        let mut i: usize = 0;
        while i < self.capabilities.len()
            invariant
                i <= self.capabilities@.len(),
                capabilities@.map_values(|c: Capability| c@) == cap_views(
                    self.capabilities@.subrange(0, i as int),
                    id,
                ),
            decreases self.capabilities@.len() - i,
        {
            proof {
                assert(self.capabilities@.subrange(0, i + 1 as int) =~= self.capabilities@.subrange(
                    0,
                    i as int,
                ).push(self.capabilities@[i as int]));
                lemma_cap_views_push(
                    self.capabilities@.subrange(0, i as int),
                    self.capabilities@[i as int],
                    id,
                );
            }
            if self.capabilities[i].agent_id == id {
                let ghost before = capabilities@;
                capabilities.push(self.capabilities[i].capability.clone());
                proof {
                    assert(capabilities@.map_values(|c: Capability| c@) =~= before.map_values(
                        |c: Capability| c@,
                    ).push(self.capabilities@[i as int].capability@));
                }
            }
            i = i + 1;
        }
        proof {
            assert(self.capabilities@.subrange(0, self.capabilities@.len() as int)
                =~= self.capabilities@);
        }

        // The configuration row; the store invariant makes it exist.
        proof {
            assert(self.has_configuration(id)) by {
                assert(self.agents@[root_index as int].id == id);
            }
        }
        let ghost cw = choose|k: int|
            0 <= k < self.configurations@.len() && #[trigger] self.configurations@[k].agent_id
                == id;
        let cfg_count: usize = self.configurations.len();
        let mut cfg_index: usize = 0;
        while cfg_index < cfg_count && self.configurations[cfg_index].agent_id != id
            invariant
                cfg_index <= cfg_count,
                forall|k: int|
                    0 <= k < cfg_index ==> (#[trigger] self.configurations@[k]).agent_id != id,
            decreases cfg_count - cfg_index,
        {
            cfg_index = cfg_index + 1;
        }
        proof {
            if cfg_index == cfg_count {
                assert(self.configurations@[cw].agent_id == id);
                assert(false);
            }
            self.lemma_configuration_lookup(id, cfg_index as int);
        }
        let configuration = self.configurations[cfg_index].configuration.clone();

        // Full metadata mapping.
        let mut metadata: Vec<(String, String)> = Vec::new();
        let mut m: usize = 0;
        while m < self.metadata.len()
            invariant
                m <= self.metadata@.len(),
                metadata@ == meta_entries(self.metadata@.subrange(0, m as int), id),
            decreases self.metadata@.len() - m,
        {
            proof {
                assert(self.metadata@.subrange(0, m + 1 as int) =~= self.metadata@.subrange(
                    0,
                    m as int,
                ).push(self.metadata@[m as int]));
                lemma_meta_entries_push(
                    self.metadata@.subrange(0, m as int),
                    self.metadata@[m as int],
                    id,
                );
            }
            if self.metadata[m].agent_id == id {
                let pair = (self.metadata[m].key.clone(), self.metadata[m].value.clone());
                proof {
                    assert(pair == (self.metadata@[m as int].key, self.metadata@[m as int].value));
                }
                metadata.push(pair);
            }
            m = m + 1;
        }
        proof {
            assert(self.metadata@.subrange(0, self.metadata@.len() as int) =~= self.metadata@);
        }

        let root = &self.agents[root_index];
        let a = Agent {
            id: AgentId(id),
            name: root.name.clone(),
            description: root.description.clone(),
            agent_type: root.agent_type.clone(),
            status: root.status,
            capabilities,
            configuration,
            metadata,
            created_at: root.created_at,
            updated_at: root.updated_at,
        };
        proof {
            assert(a@.capabilities == self.capabilities_of(id));
            assert(a@.metadata == self.metadata_of(id));
            assert(a@ == self.abs_of(id));
            assert(id == self.agents@[root_index as int].id);

            // The read aggregate satisfies the aggregate invariant.
            lemma_selected_membership(self.capabilities@, cap_owner_is(id));
            lemma_selected_pairwise(
                self.capabilities@,
                cap_owner_is(id),
                |x: CapabilityRow, y: CapabilityRow|
                    x.agent_id == y.agent_id ==> x.capability.name@ != y.capability.name@,
            );
            let caps_sel = selected(self.capabilities@, cap_owner_is(id));
            assert forall|x: int, y: int|
                #![trigger a@.capabilities[x], a@.capabilities[y]]
                0 <= x < y < a@.capabilities.len() implies a@.capabilities[x].name@
                != a@.capabilities[y].name@ by {
                assert(a@.capabilities[x] == caps_sel[x].capability@);
                assert(a@.capabilities[y] == caps_sel[y].capability@);
                assert(cap_owner_is(id)(caps_sel[x]) && cap_owner_is(id)(caps_sel[y]));
            }
            lemma_selected_membership(self.metadata@, meta_owner_is(id));
            lemma_selected_pairwise(
                self.metadata@,
                meta_owner_is(id),
                |x: MetadataRow, y: MetadataRow| x.agent_id == y.agent_id ==> x.key@ != y.key@,
            );
            let meta_sel = selected(self.metadata@, meta_owner_is(id));
            assert forall|x: int, y: int|
                #![trigger a@.metadata[x], a@.metadata[y]]
                0 <= x < y < a@.metadata.len() implies a@.metadata[x].0@
                != a@.metadata[y].0@ by {
                assert(a@.metadata[x] == (meta_sel[x].key, meta_sel[x].value));
                assert(a@.metadata[y] == (meta_sel[y].key, meta_sel[y].value));
                assert(meta_owner_is(id)(meta_sel[x]) && meta_owner_is(id)(meta_sel[y]));
            }
        }
        a
    }

    /// Reads one aggregate as a single consistent snapshot, or `None` when
    /// the identifier is not stored.
    #[verifier::loop_isolation(false)]
    pub fn find_by_id(&self, id: &AgentId) -> (r: Result<Option<Agent>, Error>)
        requires
            self.wf(),
        ensures
            match r {
                Ok(found) => match found {
                    Some(a) => self.has_id(id.0) && a@ == self.abs_of(id.0) && a@.wf(),
                    None => !self.has_id(id.0),
                },
                Err(_) => false,
            },
    {
        let mut i: usize = 0;
        while i < self.agents.len()
            invariant
                i <= self.agents@.len(),
                forall|k: int| 0 <= k < i ==> (#[trigger] self.agents@[k]).id != id.0,
            decreases self.agents@.len() - i,
        {
            if self.agents[i].id == id.0 {
                proof {
                    self.lemma_root_lookup(id.0, i as int);
                }
                return Ok(Some(self.assemble(i)));
            }
            i = i + 1;
        }
        Ok(None)
    }

    /// Reads the aggregate carrying this display name, or `None` when no
    /// agent has the name.
    #[verifier::loop_isolation(false)]
    pub fn find_by_name(&self, name: &str) -> (r: Result<Option<Agent>, Error>)
        requires
            self.wf(),
        ensures
            match r {
                Ok(found) => match found {
                    Some(a) => self.has_name(name@) && a@ == self.abs_of(self.id_of_name(name@))
                        && a@.wf(),
                    None => !self.has_name(name@),
                },
                Err(_) => false,
            },
    {
        let target = name.to_owned();
        let mut i: usize = 0;
        while i < self.agents.len()
            invariant
                i <= self.agents@.len(),
                forall|k: int| 0 <= k < i ==> (#[trigger] self.agents@[k]).name@ != name@,
            decreases self.agents@.len() - i,
        {
            if self.agents[i].name.eq(&target) {
                proof {
                    self.lemma_name_lookup(name@, i as int);
                }
                return Ok(Some(self.assemble(i)));
            }
            i = i + 1;
        }
        Ok(None)
    }

    /// Reads every aggregate, ordered by creation time, newest first.
    #[verifier::loop_isolation(false)]
    pub fn find_all(&self) -> (r: Result<Vec<Agent>, Error>)
        requires
            self.wf(),
        ensures
            match r {
                Ok(v) => {
                    &&& v@.len() == self.agents@.len()
                    &&& forall|k: int|
                        0 <= k < v@.len() ==> (#[trigger] v@[k])@ == self.abs_of(
                            self.agents@[k].id,
                        ) && v@[k]@.wf()
                    &&& forall|k: int, m: int|
                        #![trigger v@[k], v@[m]]
                        0 <= k <= m < v@.len() ==> v@[k]@.created_at >= v@[m]@.created_at
                },
                Err(_) => false,
            },
    {
        let mut out: Vec<Agent> = Vec::new();
        let mut i: usize = 0;
        while i < self.agents.len()
            invariant
                i <= self.agents@.len(),
                out@.len() == i,
                forall|k: int|
                    0 <= k < i ==> (#[trigger] out@[k])@ == self.abs_of(self.agents@[k].id)
                        && out@[k]@.wf(),
            decreases self.agents@.len() - i,
        {
            let a = self.assemble(i);
            out.push(a);
            i = i + 1;
        }
        proof {
            assert forall|k: int, m: int|
                #![trigger out@[k], out@[m]]
                0 <= k <= m < out@.len() implies out@[k]@.created_at
                >= out@[m]@.created_at by {
                self.lemma_root_lookup(self.agents@[k].id, k);
                self.lemma_root_lookup(self.agents@[m].id, m);
            }
        }
        Ok(out)
    }

    /// Reads every aggregate of this type, ordered by creation time,
    /// newest first.
    #[verifier::loop_isolation(false)]
    pub fn find_by_type(&self, agent_type: &AgentType) -> (r: Result<Vec<Agent>, Error>)
        requires
            self.wf(),
        ensures
            match r {
                Ok(v) => {
                    &&& v@.len() == selected(self.agents@, root_type_is(*agent_type)).len()
                    &&& forall|k: int|
                        0 <= k < v@.len() ==> (#[trigger] v@[k])@ == self.abs_of(
                            selected(self.agents@, root_type_is(*agent_type))[k].id,
                        ) && v@[k]@.wf()
                },
                Err(_) => false,
            },
    {
        let ghost pred = root_type_is(*agent_type);
        let mut out: Vec<Agent> = Vec::new();
        let mut i: usize = 0;
        while i < self.agents.len()
            invariant
                i <= self.agents@.len(),
                out@.len() == selected(self.agents@.subrange(0, i as int), pred).len(),
                forall|k: int|
                    0 <= k < out@.len() ==> (#[trigger] out@[k])@ == self.abs_of(
                        selected(self.agents@.subrange(0, i as int), pred)[k].id,
                    ) && out@[k]@.wf(),
            decreases self.agents@.len() - i,
    {
            proof {
                assert(self.agents@.subrange(0, i + 1 as int) =~= self.agents@.subrange(
                    0,
                    i as int,
                ).push(self.agents@[i as int]));
                lemma_selected_push(self.agents@.subrange(0, i as int), pred, self.agents@[i as int]);
            }
            if self.agents[i].agent_type.eq(agent_type) {
                let a = self.assemble(i);
                out.push(a);
            }
            i = i + 1;
        }
        proof {
            assert(self.agents@.subrange(0, self.agents@.len() as int) =~= self.agents@);
        }
        Ok(out)
    }

    /// Reads every aggregate in this status, ordered by creation time,
    /// newest first.
    #[verifier::loop_isolation(false)]
    pub fn find_by_status(&self, status: &AgentStatus) -> (r: Result<Vec<Agent>, Error>)
        requires
            self.wf(),
        ensures
            match r {
                Ok(v) => {
                    &&& v@.len() == selected(self.agents@, root_status_is(*status)).len()
                    &&& forall|k: int|
                        0 <= k < v@.len() ==> (#[trigger] v@[k])@ == self.abs_of(
                            selected(self.agents@, root_status_is(*status))[k].id,
                        ) && v@[k]@.wf()
                },
                Err(_) => false,
            },
    {
        let ghost pred = root_status_is(*status);
        let mut out: Vec<Agent> = Vec::new();
        let mut i: usize = 0;
        while i < self.agents.len()
            invariant
                i <= self.agents@.len(),
                out@.len() == selected(self.agents@.subrange(0, i as int), pred).len(),
                forall|k: int|
                    0 <= k < out@.len() ==> (#[trigger] out@[k])@ == self.abs_of(
                        selected(self.agents@.subrange(0, i as int), pred)[k].id,
                    ) && out@[k]@.wf(),
            decreases self.agents@.len() - i,
        {
            proof {
                assert(self.agents@.subrange(0, i + 1 as int) =~= self.agents@.subrange(
                    0,
                    i as int,
                ).push(self.agents@[i as int]));
                lemma_selected_push(self.agents@.subrange(0, i as int), pred, self.agents@[i as int]);
            }
            if self.agents[i].status == *status {
                let a = self.assemble(i);
                out.push(a);
            }
            i = i + 1;
        }
        proof {
            assert(self.agents@.subrange(0, self.agents@.len() as int) =~= self.agents@);
        }
        Ok(out)
    }
}



impl AgentRepository {
    /// Whether some other agent than `id` already carries `name`.
    pub open spec fn name_taken_by_other(self, name: Seq<char>, id: u128) -> bool {
        exists|k: int|
            0 <= k < self.agents@.len() && #[trigger] self.agents@[k].name@ == name
                && self.agents@[k].id != id
    }
}

/// Relation between the tables before and after `update` reconciles the
/// aggregate `agent`: the root row and configuration row overwritten in
/// place, the capability and metadata tables holding exactly the kept rows
/// of other agents followed by the supplied rows.
pub open spec fn update_tables_rel(
    pre: AgentRepository,
    post: AgentRepository,
    agent: Agent,
    idx: int,
    cidx: int,
    row: AgentRow,
    cfg_row: ConfigurationRow,
) -> bool {
    let id = agent.id.0;
    let kept_caps = selected(pre.capabilities@, cap_kept(id));
    let kept_meta = selected(pre.metadata@, meta_kept(id));
    &&& 0 <= idx < pre.agents@.len()
    &&& pre.agents@[idx].id == id
    &&& forall|k: int|
        0 <= k < pre.agents@.len() && k != idx ==> (#[trigger] pre.agents@[k]).name@
            != agent.name@
    &&& row.id == id
    &&& row.name == agent.name
    &&& row.description == agent.description
    &&& row.agent_type == agent.agent_type
    &&& row.status == agent.status
    &&& row.created_at == pre.agents@[idx].created_at
    &&& row.created_at <= row.updated_at
    &&& post.agents@ == pre.agents@.update(idx, row)
    &&& 0 <= cidx < pre.configurations@.len()
    &&& pre.configurations@[cidx].agent_id == id
    &&& cfg_row.agent_id == id
    &&& cfg_row.configuration@ == agent.configuration@
    &&& post.configurations@ == pre.configurations@.update(cidx, cfg_row)
    &&& post.capabilities@.len() == kept_caps.len() + agent.capabilities@.len()
    &&& forall|k: int| 0 <= k < kept_caps.len() ==> #[trigger] post.capabilities@[k] == kept_caps[k]
    &&& forall|k: int|
        0 <= k < agent.capabilities@.len() ==> (#[trigger] post.capabilities@[kept_caps.len()
            + k]).agent_id == id
    &&& forall|k: int|
        0 <= k < agent.capabilities@.len() ==> (#[trigger] post.capabilities@[kept_caps.len()
            + k]).capability@ == agent.capabilities@[k]@
    &&& cap_views(post.capabilities@, id) == agent.capabilities@.map_values(|c: Capability| c@)
    &&& forall|j: u128|
        j != id ==> cap_views(post.capabilities@, j) == cap_views(pre.capabilities@, j)
    &&& post.metadata@.len() == kept_meta.len() + agent.metadata@.len()
    &&& forall|k: int| 0 <= k < kept_meta.len() ==> #[trigger] post.metadata@[k] == kept_meta[k]
    &&& forall|k: int|
        0 <= k < agent.metadata@.len() ==> (#[trigger] post.metadata@[kept_meta.len()
            + k]).agent_id == id
    &&& forall|k: int|
        0 <= k < agent.metadata@.len() ==> (#[trigger] post.metadata@[kept_meta.len() + k]).key
            == agent.metadata@[k].0 && post.metadata@[kept_meta.len() + k].value
            == agent.metadata@[k].1
    &&& meta_entries(post.metadata@, id) == agent.metadata@
    &&& forall|j: u128| j != id ==> meta_entries(post.metadata@, j) == meta_entries(pre.metadata@, j)
}

/// After `update`'s table changes, the store invariant holds again and no
/// identifier appears or disappears.
#[verifier::rlimit(100)]
proof fn lemma_update_wf(
    pre: AgentRepository,
    post: AgentRepository,
    agent: Agent,
    idx: int,
    cidx: int,
    row: AgentRow,
    cfg_row: ConfigurationRow,
)
    requires
        pre.wf(),
        agent@.wf(),
        update_tables_rel(pre, post, agent, idx, cidx, row, cfg_row),
    ensures
        post.wf(),
        forall|j: u128| post.has_id(j) == pre.has_id(j),
        forall|j: u128| post.has_configuration(j) == pre.has_configuration(j),
        post.has_name(agent.name@),
{
    let id = agent.id.0;

    assert forall|k: int|
        0 <= k < post.agents@.len() implies (#[trigger] post.agents@[k]).id == pre.agents@[k].id by {}

    assert forall|j: u128| post.has_id(j) == pre.has_id(j) by {
        if pre.has_id(j) {
            let k = choose|k: int| 0 <= k < pre.agents@.len() && #[trigger] pre.agents@[k].id == j;
            assert(post.agents@[k].id == j);
        }
        if post.has_id(j) {
            let k = choose|k: int|
                0 <= k < post.agents@.len() && #[trigger] post.agents@[k].id == j;
            assert(pre.agents@[k].id == j);
        }
    }

    assert forall|k: int|
        0 <= k < post.configurations@.len() implies (#[trigger] post.configurations@[k]).agent_id
        == pre.configurations@[k].agent_id by {}

    assert forall|j: u128| post.has_configuration(j) == pre.has_configuration(j) by {
        if pre.has_configuration(j) {
            let k = choose|k: int|
                0 <= k < pre.configurations@.len() && #[trigger] pre.configurations@[k].agent_id
                    == j;
            assert(post.configurations@[k].agent_id == j);
        }
        if post.has_configuration(j) {
            let k = choose|k: int|
                0 <= k < post.configurations@.len() && #[trigger] post.configurations@[k].agent_id
                    == j;
            assert(pre.configurations@[k].agent_id == j);
        }
    }

    assert(post.agents@[idx].name@ == agent.name@);
    assert(post.has_name(agent.name@));

    let kept_caps = selected(pre.capabilities@, cap_kept(id));
    let kept_meta = selected(pre.metadata@, meta_kept(id));
    lemma_selected_membership(pre.capabilities@, cap_kept(id));
    lemma_selected_membership(pre.metadata@, meta_kept(id));
    lemma_selected_pairwise(
        pre.capabilities@,
        cap_kept(id),
        |x: CapabilityRow, y: CapabilityRow|
            x.agent_id == y.agent_id ==> x.capability.name@ != y.capability.name@,
    );
    lemma_selected_pairwise(
        pre.metadata@,
        meta_kept(id),
        |x: MetadataRow, y: MetadataRow| x.agent_id == y.agent_id ==> x.key@ != y.key@,
    );

    assert(post.wf()) by {
        assert forall|a: int, b: int|
            #![trigger post.agents@[a], post.agents@[b]]
            0 <= a < b < post.agents@.len() implies post.agents@[a].id != post.agents@[b].id
            && post.agents@[a].name@ != post.agents@[b].name@ by {
            assert(post.agents@[a].id == pre.agents@[a].id);
            assert(post.agents@[b].id == pre.agents@[b].id);
            if a == idx {
                assert(post.agents@[b] == pre.agents@[b]);
            } else if b == idx {
                assert(post.agents@[a] == pre.agents@[a]);
            } else {
                assert(post.agents@[a] == pre.agents@[a]);
                assert(post.agents@[b] == pre.agents@[b]);
            }
        }
        assert forall|a: int, b: int|
            #![trigger post.agents@[a], post.agents@[b]]
            0 <= a <= b < post.agents@.len() implies post.agents@[a].created_at
            >= post.agents@[b].created_at by {
            assert(post.agents@[a].created_at == pre.agents@[a].created_at);
            assert(post.agents@[b].created_at == pre.agents@[b].created_at);
        }
        assert forall|k: int|
            0 <= k < post.agents@.len() implies (#[trigger] post.agents@[k]).created_at
            <= post.agents@[k].updated_at by {
            if k != idx {
                assert(post.agents@[k] == pre.agents@[k]);
            }
        }
        assert forall|k: int|
            0 <= k < post.configurations@.len() implies post.has_id(
            (#[trigger] post.configurations@[k]).agent_id,
        ) by {
            assert(pre.has_id(pre.configurations@[k].agent_id));
        }
        assert forall|a: int, b: int|
            #![trigger post.configurations@[a], post.configurations@[b]]
            0 <= a < b < post.configurations@.len() implies post.configurations@[a].agent_id
            != post.configurations@[b].agent_id by {
            assert(post.configurations@[a].agent_id == pre.configurations@[a].agent_id);
            assert(post.configurations@[b].agent_id == pre.configurations@[b].agent_id);
        }
        assert forall|k: int|
            0 <= k < post.agents@.len() implies post.has_configuration(
            (#[trigger] post.agents@[k]).id,
        ) by {
            assert(post.agents@[k].id == pre.agents@[k].id);
            assert(pre.has_configuration(pre.agents@[k].id));
        }
        let nc = kept_caps.len() as int;
        assert forall|k: int|
            0 <= k < post.capabilities@.len() implies post.has_id(
            (#[trigger] post.capabilities@[k]).agent_id,
        ) by {
            if k < nc {
                assert(post.capabilities@[k] == kept_caps[k]);
                let k2 = choose|k2: int|
                    0 <= k2 < pre.capabilities@.len() && pre.capabilities@[k2] == kept_caps[k];
                assert(pre.has_id(pre.capabilities@[k2].agent_id));
            } else {
                let t = k - nc;
                assert(post.capabilities@[nc + t].agent_id == id);
                assert(pre.has_id(id));
            }
        }
        assert forall|a: int, b: int|
            #![trigger post.capabilities@[a], post.capabilities@[b]]
            0 <= a < b < post.capabilities@.len() && post.capabilities@[a].agent_id
            == post.capabilities@[b].agent_id implies post.capabilities@[a].capability.name@
            != post.capabilities@[b].capability.name@ by {
            if b < nc {
                assert(post.capabilities@[a] == kept_caps[a]);
                assert(post.capabilities@[b] == kept_caps[b]);
            } else if a < nc {
                let t = b - nc;
                assert(post.capabilities@[a] == kept_caps[a]);
                assert(cap_kept(id)(kept_caps[a]));
                assert(post.capabilities@[nc + t].agent_id == id);
            } else {
                let ta = a - nc;
                let tb = b - nc;
                assert(post.capabilities@[nc + ta].capability@ == agent.capabilities@[ta]@);
                assert(post.capabilities@[nc + tb].capability@ == agent.capabilities@[tb]@);
                assert(agent@.capabilities[ta] == agent.capabilities@[ta]@);
                assert(agent@.capabilities[tb] == agent.capabilities@[tb]@);
                assert(agent@.capabilities[ta].name@ != agent@.capabilities[tb].name@);
            }
        }
        let nm = kept_meta.len() as int;
        assert forall|k: int|
            0 <= k < post.metadata@.len() implies post.has_id(
            (#[trigger] post.metadata@[k]).agent_id,
        ) by {
            if k < nm {
                assert(post.metadata@[k] == kept_meta[k]);
                let k2 = choose|k2: int|
                    0 <= k2 < pre.metadata@.len() && pre.metadata@[k2] == kept_meta[k];
                assert(pre.has_id(pre.metadata@[k2].agent_id));
            } else {
                let t = k - nm;
                assert(post.metadata@[nm + t].agent_id == id);
                assert(pre.has_id(id));
            }
        }
        assert forall|a: int, b: int|
            #![trigger post.metadata@[a], post.metadata@[b]]
            0 <= a < b < post.metadata@.len() && post.metadata@[a].agent_id
            == post.metadata@[b].agent_id implies post.metadata@[a].key@
            != post.metadata@[b].key@ by {
            if b < nm {
                assert(post.metadata@[a] == kept_meta[a]);
                assert(post.metadata@[b] == kept_meta[b]);
            } else if a < nm {
                let t = b - nm;
                assert(post.metadata@[a] == kept_meta[a]);
                assert(meta_kept(id)(kept_meta[a]));
                assert(post.metadata@[nm + t].agent_id == id);
            } else {
                let ta = a - nm;
                let tb = b - nm;
                assert(post.metadata@[nm + ta].key == agent.metadata@[ta].0);
                assert(post.metadata@[nm + tb].key == agent.metadata@[tb].0);
                assert(agent@.metadata[ta].0@ != agent@.metadata[tb].0@);
            }
        }
    }
}

/// After `update`'s table changes, the aggregate reads back as supplied
/// but for the timestamps, and every other aggregate reads back unchanged.
proof fn lemma_update_reads(
    pre: AgentRepository,
    post: AgentRepository,
    agent: Agent,
    idx: int,
    cidx: int,
    row: AgentRow,
    cfg_row: ConfigurationRow,
)
    requires
        pre.wf(),
        post.wf(),
        agent@.wf(),
        update_tables_rel(pre, post, agent, idx, cidx, row, cfg_row),
    ensures
        post.has_id(agent.id.0),
        post.abs_of(agent.id.0).name == agent@.name,
        post.abs_of(agent.id.0).description == agent@.description,
        post.abs_of(agent.id.0).agent_type == agent@.agent_type,
        post.abs_of(agent.id.0).status == agent@.status,
        post.abs_of(agent.id.0).capabilities == agent@.capabilities,
        post.abs_of(agent.id.0).configuration == agent@.configuration,
        post.abs_of(agent.id.0).metadata == agent@.metadata,
        post.abs_of(agent.id.0).created_at == pre.abs_of(agent.id.0).created_at,
        post.abs_of(agent.id.0).created_at <= post.abs_of(agent.id.0).updated_at,
        post.abs_of(agent.id.0).wf(),
        forall|j: u128| j != agent.id.0 && pre.has_id(j) ==> post.abs_of(j) == pre.abs_of(j),
{
    let id = agent.id.0;
    assert(post.agents@[idx].id == id);
    post.lemma_root_lookup(id, idx);
    pre.lemma_root_lookup(id, idx);
    post.lemma_configuration_lookup(id, cidx);
    assert(cap_views(post.capabilities@, id) =~= agent@.capabilities);
    assert(meta_entries(post.metadata@, id) =~= agent@.metadata);

    assert forall|j: u128| j != id && pre.has_id(j) implies post.abs_of(j) == pre.abs_of(j) by {
        let k = choose|k: int| 0 <= k < pre.agents@.len() && #[trigger] pre.agents@[k].id == j;
        assert(k != idx);
        assert(post.agents@[k] == pre.agents@[k]);
        pre.lemma_root_lookup(j, k);
        post.lemma_root_lookup(j, k);
        assert(pre.has_configuration(j));
        let c = choose|c: int|
            0 <= c < pre.configurations@.len() && #[trigger] pre.configurations@[c].agent_id == j;
        assert(c != cidx);
        assert(post.configurations@[c] == pre.configurations@[c]);
        pre.lemma_configuration_lookup(j, c);
        post.lemma_configuration_lookup(j, c);
    }
}

impl AgentRepository {
    /// Reconciles the stored aggregate to exactly the supplied one: the
    /// root row and configuration row are overwritten and the capability
    /// and metadata collections are replaced whole, all atomically with the
    /// other changes. The creation timestamp is kept and the update
    /// timestamp refreshed from the clock, never moving before creation.
    /// An unknown identifier is `NotFound`; renaming onto another agent's
    /// name is a `Conflict`; either failure leaves the store untouched. The
    /// supplied aggregate is echoed back unchanged.
    #[verifier::loop_isolation(false)]
    pub fn update(&mut self, agent: &Agent) -> (r: Result<Agent, Error>)
        requires
            old(self).wf(),
            agent@.wf(),
        ensures
            final(self).wf(),
            match r {
                Ok(stored) => {
                    &&& old(self).has_id(agent.id.0)
                    &&& !old(self).name_taken_by_other(agent.name@, agent.id.0)
                    &&& stored@ == agent@
                    &&& final(self).has_id(agent.id.0)
                    &&& final(self).abs_of(agent.id.0).name == agent@.name
                    &&& final(self).abs_of(agent.id.0).description == agent@.description
                    &&& final(self).abs_of(agent.id.0).agent_type == agent@.agent_type
                    &&& final(self).abs_of(agent.id.0).status == agent@.status
                    &&& final(self).abs_of(agent.id.0).capabilities == agent@.capabilities
                    &&& final(self).abs_of(agent.id.0).configuration == agent@.configuration
                    &&& final(self).abs_of(agent.id.0).metadata == agent@.metadata
                    &&& final(self).abs_of(agent.id.0).created_at == old(self).abs_of(
                        agent.id.0,
                    ).created_at
                    &&& final(self).abs_of(agent.id.0).wf()
                    &&& final(self).agent_count() == old(self).agent_count()
                    &&& forall|j: u128| final(self).has_id(j) == old(self).has_id(j)
                    &&& forall|j: u128|
                        j != agent.id.0 && old(self).has_id(j) ==> final(self).abs_of(j) == old(
                            self,
                        ).abs_of(j)
                    &&& final(self).has_name(agent.name@)
                },
                Err(e) => {
                    &&& *final(self) == *old(self)
                    &&& (e is NotFound <==> !old(self).has_id(agent.id.0))
                    &&& (e is Conflict <==> old(self).has_id(agent.id.0) && old(
                        self,
                    ).name_taken_by_other(agent.name@, agent.id.0))
                    &&& (e is NotFound || e is Conflict)
                },
            },
    {
        let ghost pre = *self;
        let id: u128 = agent.id.0;

        // The aggregate must exist before anything is written.
        let root_count: usize = self.agents.len();
        let mut idx: usize = 0;
        while idx < root_count && self.agents[idx].id != id
            invariant
                idx <= root_count,
                forall|k: int| 0 <= k < idx ==> (#[trigger] self.agents@[k]).id != id,
            decreases root_count - idx,
        {
            idx = idx + 1;
        }
        if idx == root_count {
            return Err(Error::NotFound("no agent with this id".to_owned()));
        }
        proof {
            self.lemma_root_lookup(id, idx as int);
        }

        // Renaming onto another agent's name would break uniqueness.
        let mut k: usize = 0;
        while k < root_count
            invariant
                k <= root_count,
                forall|t: int|
                    0 <= t < k && t != idx ==> (#[trigger] self.agents@[t]).name@ != agent.name@,
            decreases root_count - k,
        {
            if k != idx && self.agents[k].name.eq(&agent.name) {
                proof {
                    assert(self.agents@[k as int].id != id);
                }
                return Err(Error::Conflict("agent name already stored".to_owned()));
            }
            k = k + 1;
        }
        assert(!pre.name_taken_by_other(agent.name@, id));

        // Root row: the creation timestamp is kept; the update timestamp is
        // refreshed from the clock but never moves before creation.
        let created_at = self.agents[idx].created_at;
        let now = crate::runtime::now_millis();
        let updated_at = if now >= created_at {
            now
        } else {
            created_at
        };
        let row = AgentRow {
            id,
            name: agent.name.clone(),
            description: agent.description.clone(),
            agent_type: agent.agent_type.clone(),
            status: agent.status,
            created_at,
            updated_at,
        };
        self.agents.set(idx, row);

        // Configuration row, overwritten in place.
        let ghost cw = choose|c: int|
            0 <= c < self.configurations@.len() && #[trigger] self.configurations@[c].agent_id
                == id;
        let cfg_count: usize = self.configurations.len();
        let mut cidx: usize = 0;
        while cidx < cfg_count && self.configurations[cidx].agent_id != id
            invariant
                cidx <= cfg_count,
                forall|t: int|
                    0 <= t < cidx ==> (#[trigger] self.configurations@[t]).agent_id != id,
            decreases cfg_count - cidx,
        {
            cidx = cidx + 1;
        }
        proof {
            assert(pre.has_configuration(id)) by {
                assert(pre.agents@[idx as int].id == id);
            }
            if cidx == cfg_count {
                assert(self.configurations@[cw].agent_id == id);
                assert(false);
            }
        }
        let cfg_row = ConfigurationRow { agent_id: id, configuration: agent.configuration.clone() };
        self.configurations.set(cidx, cfg_row);

        // The two dependent collections are reconciled by full replacement.
        remove_capability_rows(&mut self.capabilities, id);
        insert_capability_rows(&mut self.capabilities, id, &agent.capabilities);
        remove_metadata_rows(&mut self.metadata, id);
        insert_metadata_rows(&mut self.metadata, id, &agent.metadata);

        proof {
            assert(cap_views(selected(pre.capabilities@, cap_kept(id)), id) + agent.capabilities@.map_values(
                |c: Capability| c@,
            ) =~= agent.capabilities@.map_values(|c: Capability| c@));
            assert(meta_entries(selected(pre.metadata@, meta_kept(id)), id) + agent.metadata@
                =~= agent.metadata@);
            assert(update_tables_rel(pre, *self, *agent, idx as int, cidx as int, row, cfg_row));
            lemma_update_wf(pre, *self, *agent, idx as int, cidx as int, row, cfg_row);
            lemma_update_reads(pre, *self, *agent, idx as int, cidx as int, row, cfg_row);
        }

        Ok(agent.clone())
    }
}



/// Every row satisfying the predicate occurs among the selected rows.
pub proof fn lemma_selected_contains<T>(rows: Seq<T>, pred: spec_fn(T) -> bool)
    ensures
        forall|k: int|
            0 <= k < rows.len() && pred(#[trigger] rows[k]) ==> exists|n: int|
                0 <= n < selected(rows, pred).len() && selected(rows, pred)[n] == rows[k],
    decreases rows.len(),
{
    if rows.len() > 0 {
        lemma_selected_contains(rows.drop_last(), pred);
        let s = selected(rows, pred);
        let sp = selected(rows.drop_last(), pred);
        assert forall|k: int|
            0 <= k < rows.len() && pred(#[trigger] rows[k]) implies exists|n: int|
            0 <= n < s.len() && s[n] == rows[k] by {
            if k == rows.len() - 1 {
                assert(s[s.len() - 1] == rows[k]);
            } else {
                assert(rows.drop_last()[k] == rows[k]);
                let n = choose|n: int| 0 <= n < sp.len() && sp[n] == rows.drop_last()[k];
                assert(s[n] == rows[k]);
            }
        }
    }
}

/// After `delete`'s table changes, the store invariant holds again.
#[verifier::rlimit(100)]
proof fn lemma_delete_wf(pre: AgentRepository, post: AgentRepository, id: u128, idx: int)
    requires
        pre.wf(),
        0 <= idx < pre.agents@.len(),
        pre.agents@[idx].id == id,
        post.agents@ == pre.agents@.remove(idx),
        post.capabilities@ == selected(pre.capabilities@, cap_kept(id)),
        post.configurations@ == selected(pre.configurations@, cfg_kept(id)),
        post.metadata@ == selected(pre.metadata@, meta_kept(id)),
    ensures
        post.wf(),
{
    lemma_selected_membership(pre.capabilities@, cap_kept(id));
    lemma_selected_contains(pre.capabilities@, cap_kept(id));
    lemma_selected_membership(pre.configurations@, cfg_kept(id));
    lemma_selected_contains(pre.configurations@, cfg_kept(id));
    lemma_selected_membership(pre.metadata@, meta_kept(id));
    lemma_selected_contains(pre.metadata@, meta_kept(id));

    assert forall|j: u128| j != id && pre.has_id(j) implies post.has_id(j) by {
        let k = choose|k: int| 0 <= k < pre.agents@.len() && #[trigger] pre.agents@[k].id == j;
        assert(k != idx);
        if k < idx {
            assert(post.agents@[k].id == j);
        } else {
            assert(post.agents@[k - 1].id == j);
        }
    }

    assert(post.wf()) by {
        assert forall|a: int, b: int|
            #![trigger post.agents@[a], post.agents@[b]]
            0 <= a < b < post.agents@.len() implies post.agents@[a].id != post.agents@[b].id
            && post.agents@[a].name@ != post.agents@[b].name@
            && post.agents@[a].created_at >= post.agents@[b].created_at by {
            let pa = if a < idx { a } else { a + 1 };
            let pb = if b < idx { b } else { b + 1 };
            assert(post.agents@[a] == pre.agents@[pa]);
            assert(post.agents@[b] == pre.agents@[pb]);
        }
        assert forall|a: int, b: int|
            #![trigger post.agents@[a], post.agents@[b]]
            0 <= a <= b < post.agents@.len() implies post.agents@[a].created_at
            >= post.agents@[b].created_at by {
            let pa = if a < idx { a } else { a + 1 };
            let pb = if b < idx { b } else { b + 1 };
            assert(post.agents@[a] == pre.agents@[pa]);
            assert(post.agents@[b] == pre.agents@[pb]);
        }
        assert forall|k: int|
            0 <= k < post.agents@.len() implies (#[trigger] post.agents@[k]).created_at
            <= post.agents@[k].updated_at by {}
        assert forall|k: int|
            0 <= k < post.configurations@.len() implies post.has_id(
            (#[trigger] post.configurations@[k]).agent_id,
        ) by {
            assert(cfg_kept(id)(post.configurations@[k]));
            let k2 = choose|k2: int|
                0 <= k2 < pre.configurations@.len() && pre.configurations@[k2]
                    == post.configurations@[k];
            assert(pre.has_id(pre.configurations@[k2].agent_id));
        }
        assert forall|a: int, b: int|
            #![trigger post.configurations@[a], post.configurations@[b]]
            0 <= a < b < post.configurations@.len() implies post.configurations@[a].agent_id
            != post.configurations@[b].agent_id by {
            lemma_selected_pairwise(
                pre.configurations@,
                cfg_kept(id),
                |x: ConfigurationRow, y: ConfigurationRow| x.agent_id != y.agent_id,
            );
        }
        assert forall|k: int|
            0 <= k < post.agents@.len() implies post.has_configuration(
            (#[trigger] post.agents@[k]).id,
        ) by {
            let pk = if k < idx { k } else { k + 1 };
            assert(post.agents@[k] == pre.agents@[pk]);
            let j = pre.agents@[pk].id;
            assert(pre.has_configuration(j));
            let c = choose|c: int|
                0 <= c < pre.configurations@.len() && #[trigger] pre.configurations@[c].agent_id
                    == j;
            assert(j != id) by {
                if pk < idx {
                    assert(pre.agents@[pk].id != pre.agents@[idx].id);
                } else {
                    assert(pre.agents@[idx].id != pre.agents@[pk].id);
                }
            }
            assert(cfg_kept(id)(pre.configurations@[c]));
            let n = choose|n: int|
                0 <= n < post.configurations@.len() && post.configurations@[n]
                    == pre.configurations@[c];
            assert(post.configurations@[n].agent_id == j);
        }
        assert forall|k: int|
            0 <= k < post.capabilities@.len() implies post.has_id(
            (#[trigger] post.capabilities@[k]).agent_id,
        ) by {
            assert(cap_kept(id)(post.capabilities@[k]));
            let k2 = choose|k2: int|
                0 <= k2 < pre.capabilities@.len() && pre.capabilities@[k2]
                    == post.capabilities@[k];
            assert(pre.has_id(pre.capabilities@[k2].agent_id));
        }
        assert forall|a: int, b: int|
            #![trigger post.capabilities@[a], post.capabilities@[b]]
            0 <= a < b < post.capabilities@.len() && post.capabilities@[a].agent_id
            == post.capabilities@[b].agent_id implies post.capabilities@[a].capability.name@
            != post.capabilities@[b].capability.name@ by {
            lemma_selected_pairwise(
                pre.capabilities@,
                cap_kept(id),
                |x: CapabilityRow, y: CapabilityRow|
                    x.agent_id == y.agent_id ==> x.capability.name@ != y.capability.name@,
            );
        }
        assert forall|k: int|
            0 <= k < post.metadata@.len() implies post.has_id(
            (#[trigger] post.metadata@[k]).agent_id,
        ) by {
            assert(meta_kept(id)(post.metadata@[k]));
            let k2 = choose|k2: int|
                0 <= k2 < pre.metadata@.len() && pre.metadata@[k2] == post.metadata@[k];
            assert(pre.has_id(pre.metadata@[k2].agent_id));
        }
        assert forall|a: int, b: int|
            #![trigger post.metadata@[a], post.metadata@[b]]
            0 <= a < b < post.metadata@.len() && post.metadata@[a].agent_id
            == post.metadata@[b].agent_id implies post.metadata@[a].key@
            != post.metadata@[b].key@ by {
            lemma_selected_pairwise(
                pre.metadata@,
                meta_kept(id),
                |x: MetadataRow, y: MetadataRow| x.agent_id == y.agent_id ==> x.key@ != y.key@,
            );
        }
    }
}

/// After `delete`'s table changes, the aggregate is gone and every other
/// aggregate reads back unchanged.
#[verifier::rlimit(100)]
proof fn lemma_delete_reads(pre: AgentRepository, post: AgentRepository, id: u128, idx: int)
    requires
        pre.wf(),
        post.wf(),
        0 <= idx < pre.agents@.len(),
        pre.agents@[idx].id == id,
        post.agents@ == pre.agents@.remove(idx),
        post.capabilities@ == selected(pre.capabilities@, cap_kept(id)),
        post.configurations@ == selected(pre.configurations@, cfg_kept(id)),
        post.metadata@ == selected(pre.metadata@, meta_kept(id)),
    ensures
        !post.has_id(id),
        forall|j: u128| j != id ==> post.has_id(j) == pre.has_id(j),
        forall|n: Seq<char>|
            post.has_name(n) == (pre.has_name(n) && n != pre.agents@[idx].name@),
{
    assert(!post.has_id(id)) by {
        if post.has_id(id) {
            let k = choose|k: int|
                0 <= k < post.agents@.len() && #[trigger] post.agents@[k].id == id;
            if k < idx {
                assert(pre.agents@[k].id != pre.agents@[idx].id);
            } else {
                assert(pre.agents@[idx].id != pre.agents@[k + 1].id);
            }
        }
    }

    assert forall|j: u128| j != id implies post.has_id(j) == pre.has_id(j) by {
        if pre.has_id(j) {
            let k = choose|k: int| 0 <= k < pre.agents@.len() && #[trigger] pre.agents@[k].id == j;
            assert(k != idx);
            if k < idx {
                assert(post.agents@[k].id == j);
            } else {
                assert(post.agents@[k - 1].id == j);
            }
        }
        if post.has_id(j) {
            let k = choose|k: int|
                0 <= k < post.agents@.len() && #[trigger] post.agents@[k].id == j;
            if k < idx {
                assert(pre.agents@[k].id == j);
            } else {
                assert(pre.agents@[k + 1].id == j);
            }
        }
    }

    assert forall|n: Seq<char>| post.has_name(n) == (pre.has_name(n) && n
        != pre.agents@[idx].name@) by {
        if post.has_name(n) {
            let k = choose|k: int|
                0 <= k < post.agents@.len() && #[trigger] post.agents@[k].name@ == n;
            if k < idx {
                assert(pre.agents@[k].name@ == n);
                assert(pre.agents@[k].name@ != pre.agents@[idx].name@);
            } else {
                assert(pre.agents@[k + 1].name@ == n);
                assert(pre.agents@[idx].name@ != pre.agents@[k + 1].name@);
            }
        }
        if pre.has_name(n) && n != pre.agents@[idx].name@ {
            let k = choose|k: int|
                0 <= k < pre.agents@.len() && #[trigger] pre.agents@[k].name@ == n;
            assert(k != idx);
            if k < idx {
                assert(post.agents@[k].name@ == n);
            } else {
                assert(post.agents@[k - 1].name@ == n);
            }
        }
    }


}

/// After `delete`'s table changes, every other aggregate reads back
/// unchanged.
#[verifier::rlimit(100)]
proof fn lemma_delete_other_reads(pre: AgentRepository, post: AgentRepository, id: u128, idx: int)
    requires
        pre.wf(),
        post.wf(),
        0 <= idx < pre.agents@.len(),
        pre.agents@[idx].id == id,
        post.agents@ == pre.agents@.remove(idx),
        post.capabilities@ == selected(pre.capabilities@, cap_kept(id)),
        post.configurations@ == selected(pre.configurations@, cfg_kept(id)),
        post.metadata@ == selected(pre.metadata@, meta_kept(id)),
    ensures
        forall|j: u128| j != id && pre.has_id(j) ==> post.abs_of(j) == pre.abs_of(j),
{
    lemma_selected_membership(pre.configurations@, cfg_kept(id));
    lemma_selected_contains(pre.configurations@, cfg_kept(id));
    assert forall|j: u128| j != id && pre.has_id(j) implies post.abs_of(j) == pre.abs_of(j) by {
        let k = choose|k: int| 0 <= k < pre.agents@.len() && #[trigger] pre.agents@[k].id == j;
        assert(k != idx);
        let k2 = if k < idx { k } else { k - 1 };
        assert(post.agents@[k2] == pre.agents@[k]);
        pre.lemma_root_lookup(j, k);
        post.lemma_root_lookup(j, k2);
        assert(pre.has_configuration(j));
        let c = choose|c: int|
            0 <= c < pre.configurations@.len() && #[trigger] pre.configurations@[c].agent_id == j;
        assert(cfg_kept(id)(pre.configurations@[c]));
        let n = choose|n: int|
            0 <= n < post.configurations@.len() && post.configurations@[n]
                == pre.configurations@[c];
        pre.lemma_configuration_lookup(j, c);
        post.lemma_configuration_lookup(j, n);
        assert forall|t: CapabilityRow| #[trigger] cap_owner_is(j)(t) implies cap_kept(id)(t) by {}
        lemma_selected_of_selected(pre.capabilities@, cap_kept(id), cap_owner_is(j));
        assert forall|t: MetadataRow| #[trigger] meta_owner_is(j)(t) implies meta_kept(id)(t) by {}
        lemma_selected_of_selected(pre.metadata@, meta_kept(id), meta_owner_is(j));
    }
}

impl AgentRepository {
    /// Removes the aggregate stored under `id`: the dependent rows first,
    /// then the root row, as one unit. Removing an identifier that is not
    /// stored succeeds and changes nothing; existence is the calling
    /// use-case's concern.
    #[verifier::loop_isolation(false)]
    pub fn delete(&mut self, id: &AgentId) -> (r: Result<(), Error>)
        requires
            old(self).wf(),
        ensures
            final(self).wf(),
            r is Ok,
            !final(self).has_id(id.0),
            forall|j: u128| j != id.0 ==> final(self).has_id(j) == old(self).has_id(j),
            forall|j: u128|
                j != id.0 && old(self).has_id(j) ==> final(self).abs_of(j) == old(self).abs_of(j),
            old(self).has_id(id.0) ==> final(self).agent_count() == old(self).agent_count() - 1
                && !final(self).has_name(old(self).root_of(id.0).name@),
            !old(self).has_id(id.0) ==> *final(self) == *old(self),
            forall|n: Seq<char>|
                !old(self).has_id(id.0) || n != old(self).root_of(id.0).name@
                    ==> final(self).has_name(n) == old(self).has_name(n),
    {
        let ghost pre = *self;

        // Root row index, if the aggregate exists at all.
        let root_count: usize = self.agents.len();
        let mut idx: usize = 0;
        while idx < root_count && self.agents[idx].id != id.0
            invariant
                idx <= root_count,
                forall|k: int| 0 <= k < idx ==> (#[trigger] self.agents@[k]).id != id.0,
            decreases root_count - idx,
        {
            idx = idx + 1;
        }
        if idx == root_count {
            return Ok(());
        }
        proof {
            self.lemma_root_lookup(id.0, idx as int);
        }

        // Dependent rows first, then the root row.
        remove_capability_rows(&mut self.capabilities, id.0);
        remove_metadata_rows(&mut self.metadata, id.0);
        remove_configuration_rows(&mut self.configurations, id.0);
        self.agents.remove(idx);

        proof {
            lemma_delete_wf(pre, *self, id.0, idx as int);
            lemma_delete_reads(pre, *self, id.0, idx as int);
            lemma_delete_other_reads(pre, *self, id.0, idx as int);
        }
        Ok(())
    }
}



impl AgentRepository {
    /// An agent's own stored name is never "taken by another": names are
    /// unique across root rows.
    pub proof fn lemma_own_name_not_taken(self, id: u128)
        requires
            self.wf(),
            self.has_id(id),
        ensures
            !self.name_taken_by_other(self.abs_of(id).name@, id),
    {
        let c = self.root_index_of(id);
        if self.name_taken_by_other(self.abs_of(id).name@, id) {
            let k = choose|k: int|
                0 <= k < self.agents@.len() && #[trigger] self.agents@[k].name@ == self.abs_of(
                    id,
                ).name@ && self.agents@[k].id != id;
            if k < c {
                assert(self.agents@[k].name@ != self.agents@[c].name@);
            } else if k > c {
                assert(self.agents@[c].name@ != self.agents@[k].name@);
            }
        }
    }
}


} // verus!
