//! A runner that executes pipelines locally.

use crate::pipeline_manager::automaton::{
    Phase, PhaseView, PipelineAutomaton, DEFAULT_PIPELINE_POLL_PERIOD,
};
use crate::pipeline_manager::ids::{PipelineId, TenantId};
use std::collections::BTreeSet;
use vstd::prelude::*;

verus! {

broadcast use {
    vstd::std_specs::btree::group_btree_axioms,
    vstd::laws_cmp::group_laws_cmp,
    vstd::laws_eq::group_laws_eq,
};

/// The pipelines that have an automaton.
pub struct LocalRunner {
    pipelines: BTreeSet<u128>,
}

impl LocalRunner {
    /// The pipelines that have an automaton.
    pub closed spec fn known(&self) -> Set<u128> {
        self.pipelines@
    }

    /// A runner without pipelines.
    pub fn new() -> (r: Self)
        ensures
            r.known() == Set::<u128>::empty(),
    {
        LocalRunner { pipelines: BTreeSet::new() }
    }

    /// Called before the automaton of a pipeline is notified.  Returns an automaton
    /// to run where the pipeline has none yet.
    pub fn notify_pipeline_automaton(
        &mut self,
        tenant_id: TenantId,
        pipeline_id: PipelineId,
    ) -> (r: Option<PipelineAutomaton>)
        ensures
            final(self).known() == old(self).known().insert(pipeline_id.0),
            match r {
                Some(automaton) => !old(self).known().contains(pipeline_id.0)
                    && automaton.pipeline_id == pipeline_id && automaton.tenant_id == tenant_id
                    && automaton.phase@
                    == PhaseView::Waiting(DEFAULT_PIPELINE_POLL_PERIOD),
                None => old(self).known().contains(pipeline_id.0),
            },
    {
        if self.pipelines.contains(&pipeline_id.0) {
            assert(self.pipelines@.insert(pipeline_id.0) =~= self.pipelines@);
            None
        } else {
            self.pipelines.insert(pipeline_id.0);
            Some(PipelineAutomaton::new(pipeline_id, tenant_id))
        }
    }
}

/// A pipeline gets an automaton of its own with the first notification, and no second one.
pub proof fn pipelines_have_one_automaton(
    fresh: LocalRunner,
    tenant: TenantId,
    tenant2: TenantId,
    pipeline: PipelineId,
    other: PipelineId,
    first: Option<PipelineAutomaton>,
    second: Option<PipelineAutomaton>,
    alone: Option<PipelineAutomaton>,
)
    ensures
        forall|r: &mut LocalRunner| #[trigger]
            call_ensures(
                LocalRunner::notify_pipeline_automaton,
                (r, tenant, pipeline),
                first,
            ) ==> {
                &&& call_ensures(LocalRunner::new, (), fresh) && *r == fresh ==> first is Some
                &&& first matches Some(automaton) ==> automaton.pipeline_id == pipeline
                    && automaton.tenant_id == tenant && automaton.phase == Phase::Waiting(10_000)
            },
        forall|r: &mut LocalRunner, later: &mut LocalRunner|
            #![trigger call_ensures(
                LocalRunner::notify_pipeline_automaton, (r, tenant, pipeline), first),
                call_ensures(LocalRunner::notify_pipeline_automaton, (later, tenant2, other), second)]
            call_ensures(LocalRunner::notify_pipeline_automaton, (r, tenant, pipeline), first)
                && *later == *final(r) && call_ensures(
                LocalRunner::notify_pipeline_automaton,
                (later, tenant2, other),
                second,
            ) && other == pipeline ==> second is None,
        forall|r: &mut LocalRunner, later: &mut LocalRunner, instead: &mut LocalRunner|
            #![trigger call_ensures(
                LocalRunner::notify_pipeline_automaton, (r, tenant, pipeline), first),
                call_ensures(LocalRunner::notify_pipeline_automaton, (later, tenant2, other), second),
                call_ensures(LocalRunner::notify_pipeline_automaton, (instead, tenant2, other), alone)]
            call_ensures(LocalRunner::notify_pipeline_automaton, (r, tenant, pipeline), first)
                && *later == *final(r) && call_ensures(
                LocalRunner::notify_pipeline_automaton,
                (later, tenant2, other),
                second,
            ) && *instead == *r && call_ensures(
                LocalRunner::notify_pipeline_automaton,
                (instead, tenant2, other),
                alone,
            ) && other != pipeline ==> (second is Some <==> alone is Some),
{
}

} // verus!
