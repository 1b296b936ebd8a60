use vstd::prelude::*;

verus! {

/// A preview request together with the mode it is generated in.
pub struct PreviewJob<R> {
    pub request: R,
    pub async_generation: bool,
}

/// What the runtime is to do after one pass of the queueing phase.
pub enum QueueDecision<R> {
    /// Nothing to generate in this pass.
    Idle,
    /// Launch a background task for this job.
    Spawn(PreviewJob<R>),
    /// Generate this job at once, in the current pass.
    RunInline(PreviewJob<R>),
}

/// The decision state of the preview runtime: whether it is active, whether a
/// background task is in flight, the request held back while one is, and the
/// counters that the diagnostics publish.
pub struct PreviewScheduler<R> {
    pub active: bool,
    pub task_running: bool,
    pub queued: Option<PreviewJob<R>>,
    pub pending_request: bool,
    pub queued_jobs: u64,
    pub completed_jobs: u64,
    pub last_signature: u64,
}

/// Counter increment that stops at the largest value instead of wrapping.
pub open spec fn saturating_inc(n: u64) -> u64 {
    if n == u64::MAX {
        u64::MAX
    } else {
        (n + 1) as u64
    }
}

impl<R> PreviewScheduler<R> {
    /// The diagnostics flag `pending_request` tells exactly whether a request
    /// is held back.
    pub open spec fn wf(&self) -> bool {
        self.pending_request == self.queued is Some
    }

    /// A new pass generates when nothing was ever completed, when the
    /// desired request changed, or when a request is held back.
    pub open spec fn should_generate(&self, desired_changed: bool) -> bool {
        self.completed_jobs == 0 || desired_changed || self.queued is Some
    }

    /// The job a generating pass picks: the desired request when it has just
    /// changed (it is the latest one), else the held-back one if any, else the
    /// desired one.
    pub open spec fn next_job(&self, desired: PreviewJob<R>, desired_changed: bool) -> PreviewJob<
        R,
    > {
        if desired_changed {
            desired
        } else {
            match self.queued {
                Some(job) => job,
                None => desired,
            }
        }
    }

    pub open spec fn activated(self) -> Self {
        PreviewScheduler { active: true, ..self }
    }

    pub open spec fn deactivated(self) -> Self {
        PreviewScheduler {
            active: false,
            task_running: false,
            queued: None,
            pending_request: false,
            ..self
        }
    }

    /// State after a queueing pass for the desired request. `running_matches`
    /// tells whether the job in flight is for that same request.
    pub open spec fn after_queue(
        self,
        desired: PreviewJob<R>,
        desired_changed: bool,
        running_matches: bool,
    ) -> Self {
        if !self.active {
            self
        } else if self.task_running {
            let queued = if desired_changed {
                if running_matches {
                    None
                } else {
                    Some(desired)
                }
            } else {
                self.queued
            };
            PreviewScheduler { pending_request: queued is Some, queued, ..self }
        } else if !self.should_generate(desired_changed) {
            PreviewScheduler { pending_request: false, ..self }
        } else {
            PreviewScheduler {
                queued: None,
                pending_request: false,
                queued_jobs: saturating_inc(self.queued_jobs),
                task_running: self.next_job(desired, desired_changed).async_generation,
                ..self
            }
        }
    }

    /// What a queueing pass for the desired request decides.
    pub open spec fn queue_decision(self, desired: PreviewJob<R>, desired_changed: bool) -> QueueDecision<R> {
        if !self.active || self.task_running || !self.should_generate(desired_changed) {
            QueueDecision::Idle
        } else if self.next_job(desired, desired_changed).async_generation {
            QueueDecision::Spawn(self.next_job(desired, desired_changed))
        } else {
            QueueDecision::RunInline(self.next_job(desired, desired_changed))
        }
    }

    /// State after the task in flight has delivered its result.
    pub open spec fn after_finish(self) -> Self {
        if self.active && self.task_running {
            PreviewScheduler { task_running: false, ..self }
        } else {
            self
        }
    }

    /// State after a result with this signature has been published.
    pub open spec fn after_publish(self, signature: u64) -> Self {
        if self.active {
            PreviewScheduler {
                completed_jobs: saturating_inc(self.completed_jobs),
                last_signature: signature,
                ..self
            }
        } else {
            self
        }
    }

    /// State after `n` queueing passes that all see the same unchanged request.
    pub open spec fn after_quiet_passes(self, desired: PreviewJob<R>, n: nat, running_matches: bool) -> Self
        decreases n,
    {
        if n == 0 {
            self
        } else {
            self.after_quiet_passes(desired, (n - 1) as nat, running_matches).after_queue(
                desired,
                false,
                running_matches,
            )
        }
    }

    /// An inactive scheduler with nothing in flight or held back.
    pub fn new() -> (s: Self)
        ensures
            s.wf(),
            !s.active,
            !s.task_running,
            s.queued is None,
            s.queued_jobs == 0,
            s.completed_jobs == 0,
            s.last_signature == 0,
    {
        PreviewScheduler {
            active: false,
            task_running: false,
            queued: None,
            pending_request: false,
            queued_jobs: 0,
            completed_jobs: 0,
            last_signature: 0,
        }
    }

    pub fn activate(&mut self)
        ensures
            *final(self) == old(self).activated(),
            final(self).active,
            final(self).task_running == old(self).task_running,
            final(self).queued == old(self).queued,
            final(self).pending_request == old(self).pending_request,
            final(self).queued_jobs == old(self).queued_jobs,
            final(self).completed_jobs == old(self).completed_jobs,
            final(self).last_signature == old(self).last_signature,
    {
        self.active = true;
    }

    /// Stops the runtime: drops the task in flight and any held-back request.
    pub fn deactivate(&mut self)
        ensures
            *final(self) == old(self).deactivated(),
            final(self).wf(),
            !final(self).active,
            !final(self).task_running,
            final(self).queued is None,
            final(self).queued_jobs == old(self).queued_jobs,
            final(self).completed_jobs == old(self).completed_jobs,
            final(self).last_signature == old(self).last_signature,
    {
        self.active = false;
        self.task_running = false;
        self.queued = None;
        self.pending_request = false;
    }

    /// One queueing pass. While a task is in flight, a changed request is held
    /// back (unless it is the one in flight); otherwise a job is generated when
    /// `should_generate` holds: a just-changed request, else the held-back one.
    pub fn queue_step(
        &mut self,
        desired: PreviewJob<R>,
        desired_changed: bool,
        running_matches: bool,
    ) -> (d: QueueDecision<R>)
        requires
            old(self).wf(),
        ensures
            *final(self) == old(self).after_queue(desired, desired_changed, running_matches),
            d == old(self).queue_decision(desired, desired_changed),
            final(self).wf(),
            final(self).active == old(self).active,
            final(self).completed_jobs == old(self).completed_jobs,
            final(self).last_signature == old(self).last_signature,
            old(self).active && old(self).task_running && desired_changed && !running_matches ==> {
                &&& final(self).queued == Some(desired)
                &&& d is Idle
            },
            old(self).active && !old(self).task_running && desired_changed ==> {
                &&& final(self).queued is None
                &&& d == (if desired.async_generation {
                    QueueDecision::Spawn(desired)
                } else {
                    QueueDecision::RunInline(desired)
                })
            },
            !old(self).active ==> d is Idle && *final(self) == *old(self),
    {
        if !self.active {
            return QueueDecision::Idle;
        }
        if self.task_running {
            if desired_changed {
                if running_matches {
                    self.queued = None;
                } else {
                    self.queued = Some(desired);
                }
            }
            self.pending_request = self.queued.is_some();
            return QueueDecision::Idle;
        }
        let should = self.completed_jobs == 0 || desired_changed || self.queued.is_some();
        if !should {
            self.pending_request = false;
            return QueueDecision::Idle;
        }
        let mut held: Option<PreviewJob<R>> = None;
        std::mem::swap(&mut held, &mut self.queued);
        let job = if desired_changed {
            desired
        } else {
            match held {
                Some(job) => job,
                None => desired,
            }
        };
        self.pending_request = false;
        self.queued_jobs = self.queued_jobs.saturating_add(1);
        if job.async_generation {
            self.task_running = true;
            QueueDecision::Spawn(job)
        } else {
            self.task_running = false;
            QueueDecision::RunInline(job)
        }
    }

    /// The task in flight has delivered its result.
    pub fn finish_job(&mut self)
        requires
            old(self).wf(),
        ensures
            *final(self) == old(self).after_finish(),
            final(self).wf(),
            old(self).active ==> !final(self).task_running,
            final(self).queued == old(self).queued,
            final(self).queued_jobs == old(self).queued_jobs,
            final(self).completed_jobs == old(self).completed_jobs,
            final(self).last_signature == old(self).last_signature,
    {
        if self.active && self.task_running {
            self.task_running = false;
        }
    }

    /// A generated result with this signature has been published.
    pub fn publish(&mut self, signature: u64)
        requires
            old(self).wf(),
        ensures
            *final(self) == old(self).after_publish(signature),
            final(self).wf(),
            old(self).active ==> final(self).last_signature == signature,
            old(self).active && old(self).completed_jobs < u64::MAX ==> final(self).completed_jobs
                == old(self).completed_jobs + 1,
            final(self).task_running == old(self).task_running,
            final(self).queued == old(self).queued,
            final(self).queued_jobs == old(self).queued_jobs,
    {
        if self.active {
            self.completed_jobs = self.completed_jobs.saturating_add(1);
            self.last_signature = signature;
        }
    }
}

/// Law: every operation keeps `pending_request` in step with the held-back request.
pub proof fn lemma_scheduler_steps_keep_wf<R>(
    s: PreviewScheduler<R>,
    desired: PreviewJob<R>,
    desired_changed: bool,
    running_matches: bool,
    signature: u64,
)
    requires
        s.wf(),
    ensures
        s.activated().wf(),
        s.deactivated().wf(),
        s.after_queue(desired, desired_changed, running_matches).wf(),
        s.after_finish().wf(),
        s.after_publish(signature).wf(),
{
}

/// Law: a request that changes while a job is in flight is held back, and it
/// replaces whatever was held back before: the latest one is kept. Nothing
/// is generated in that pass.
pub proof fn lemma_change_during_job_is_held_back<R>(
    s: PreviewScheduler<R>,
    desired: PreviewJob<R>,
)
    requires
        s.wf(),
        s.active,
        s.task_running,
    ensures
        s.after_queue(desired, true, false).queued == Some(desired),
        s.after_queue(desired, true, false).pending_request,
        s.after_queue(desired, true, false).task_running,
        s.queue_decision(desired, true) is Idle,
{
}

/// Law: a change back to the request already in flight drops any held-back
/// request, so the same request is not generated twice.
pub proof fn lemma_change_to_running_request_is_not_repeated<R>(
    s: PreviewScheduler<R>,
    desired: PreviewJob<R>,
)
    requires
        s.wf(),
        s.active,
        s.task_running,
    ensures
        s.after_queue(desired, true, true).queued is None,
        !s.after_queue(desired, true, true).pending_request,
{
}

/// Law: the request held back while a job was in flight is generated in the
/// first queueing pass after that job completed and its result was published,
/// unless that pass sees a newer change, which is then generated instead;
/// either way nothing is held back afterwards.
pub proof fn lemma_held_back_request_replays_after_completion<R>(
    s: PreviewScheduler<R>,
    held: PreviewJob<R>,
    next: PreviewJob<R>,
    signature: u64,
    next_changed: bool,
    next_matches: bool,
)
    requires
        s.wf(),
        s.active,
        s.task_running,
    ensures
        ({
            let waiting = s.after_queue(held, true, false).after_finish().after_publish(signature);
            let chosen = if next_changed {
                next
            } else {
                held
            };
            &&& waiting.queue_decision(next, next_changed) == (if chosen.async_generation {
                QueueDecision::Spawn(chosen)
            } else {
                QueueDecision::RunInline(chosen)
            })
            &&& waiting.after_queue(next, next_changed, next_matches).queued is None
            &&& !waiting.after_queue(next, next_changed, next_matches).pending_request
        }),
{
}

/// Law: a pass that sees a change while nothing is in flight generates the
/// changed request and drops any held-back one. If the request then stays the
/// same, it is the last one generated: once its result is published, every
/// further pass for it generates nothing and changes nothing, and while it is
/// still running an unchanged pass holds nothing back.
pub proof fn lemma_latest_change_is_generated_last<R>(
    s: PreviewScheduler<R>,
    desired: PreviewJob<R>,
    running_matches: bool,
    later_matches: bool,
    signature: u64,
)
    requires
        s.wf(),
        s.active,
        !s.task_running,
    ensures
        s.queue_decision(desired, true) == (if desired.async_generation {
            QueueDecision::Spawn(desired)
        } else {
            QueueDecision::RunInline(desired)
        }),
        ({
            let started = s.after_queue(desired, true, running_matches);
            let done = started.after_finish().after_publish(signature);
            &&& started.queued is None
            &&& !started.pending_request
            &&& (started.task_running ==> started.after_queue(desired, false, later_matches).queued is None)
            &&& (started.task_running ==> started.queue_decision(desired, false) is Idle)
            &&& done.last_signature == signature
            &&& done.queue_decision(desired, false) is Idle
            &&& done.after_queue(desired, false, later_matches) == done
        }),
{
}

/// A state that one unchanged pass leaves as it is stays so for any number of them.
pub proof fn lemma_quiet_passes_keep_fixed_state<R>(
    s: PreviewScheduler<R>,
    desired: PreviewJob<R>,
    n: nat,
    running_matches: bool,
)
    requires
        s.after_queue(desired, false, running_matches) == s,
    ensures
        s.after_quiet_passes(desired, n, running_matches) == s,
    decreases n,
{
    if n > 0 {
        lemma_quiet_passes_keep_fixed_state(s, desired, (n - 1) as nat, running_matches);
    }
}

/// Law (whole trace): a request set while a task runs survives any number of
/// unchanged passes before that task completes, each of them idle; it is
/// generated in the first pass after the task's result is published; and once
/// its own result is published, it is the last signature recorded and every
/// later unchanged pass, however many, is idle and changes nothing. Unchanged
/// passes while it runs are idle as well.
pub proof fn lemma_latest_request_is_published_after_any_wait<R>(
    s: PreviewScheduler<R>,
    latest: PreviewJob<R>,
    waiting_passes: nat,
    running_passes: nat,
    settled_passes: nat,
    first_signature: u64,
    last_signature: u64,
)
    requires
        s.wf(),
        s.active,
        s.task_running,
    ensures
        ({
            let held = s.after_queue(latest, true, false);
            let waited = held.after_quiet_passes(latest, waiting_passes, false);
            let freed = waited.after_finish().after_publish(first_signature);
            let started = freed.after_queue(latest, false, false);
            let ran = started.after_quiet_passes(latest, running_passes, true);
            let done = ran.after_finish().after_publish(last_signature);
            &&& waited == held
            &&& held.queued == Some(latest)
            &&& held.queue_decision(latest, false) is Idle
            &&& freed.queue_decision(latest, false) == (if latest.async_generation {
                QueueDecision::Spawn(latest)
            } else {
                QueueDecision::RunInline(latest)
            })
            &&& started.queued is None
            &&& ran == started
            &&& started.queue_decision(latest, false) is Idle
            &&& done.last_signature == last_signature
            &&& !done.task_running
            &&& !done.pending_request
            &&& done.queue_decision(latest, false) is Idle
            &&& done.after_quiet_passes(latest, settled_passes, false) == done
        }),
{
    let held = s.after_queue(latest, true, false);
    lemma_quiet_passes_keep_fixed_state(held, latest, waiting_passes, false);
    let freed = held.after_finish().after_publish(first_signature);
    let started = freed.after_queue(latest, false, false);
    lemma_quiet_passes_keep_fixed_state(started, latest, running_passes, true);
    let done = started.after_finish().after_publish(last_signature);
    lemma_quiet_passes_keep_fixed_state(done, latest, settled_passes, false);
}

/// Law: activation only switches the runtime on; everything else, the
/// counters and the last signature included, is kept. So a runtime that was
/// stopped after publishing a result and started again generates nothing for
/// an unchanged request, and counts nothing more.
pub proof fn lemma_activation_keeps_progress<R>(
    s: PreviewScheduler<R>,
    desired: PreviewJob<R>,
    running_matches: bool,
)
    requires
        s.wf(),
        s.completed_jobs > 0,
    ensures
        s.activated().active,
        s.activated().task_running == s.task_running,
        s.activated().queued == s.queued,
        s.activated().pending_request == s.pending_request,
        s.activated().queued_jobs == s.queued_jobs,
        s.activated().completed_jobs == s.completed_jobs,
        s.activated().last_signature == s.last_signature,
        s.deactivated().activated().completed_jobs == s.completed_jobs,
        s.deactivated().activated().queue_decision(desired, false) is Idle,
        s.deactivated().activated().after_queue(desired, false, running_matches)
            == s.deactivated().activated(),
{
}

/// Law: each operation changes only what it is about. Completing a job only
/// stops the task in flight; publishing only counts a completed job and
/// records its signature; a queueing pass never changes whether the runtime
/// is active, the completed count or the last signature.
pub proof fn lemma_operations_touch_only_their_fields<R>(
    s: PreviewScheduler<R>,
    desired: PreviewJob<R>,
    desired_changed: bool,
    running_matches: bool,
    signature: u64,
)
    requires
        s.wf(),
        s.active,
    ensures
        !s.after_finish().task_running,
        s.after_finish().queued == s.queued,
        s.after_finish().pending_request == s.pending_request,
        s.after_finish().queued_jobs == s.queued_jobs,
        s.after_finish().completed_jobs == s.completed_jobs,
        s.after_finish().last_signature == s.last_signature,
        s.after_publish(signature).task_running == s.task_running,
        s.after_publish(signature).queued == s.queued,
        s.after_publish(signature).queued_jobs == s.queued_jobs,
        s.after_publish(signature).completed_jobs >= s.completed_jobs,
        s.completed_jobs < u64::MAX ==> s.after_publish(signature).completed_jobs == s.completed_jobs
            + 1,
        s.after_queue(desired, desired_changed, running_matches).active,
        s.after_queue(desired, desired_changed, running_matches).completed_jobs == s.completed_jobs,
        s.after_queue(desired, desired_changed, running_matches).last_signature == s.last_signature,
{
}

/// Law: the generation mode only chooses how a job runs, not which request
/// it generates: the same request is generated in a background task when it
/// asks for asynchronous generation and at once otherwise.
pub proof fn lemma_mode_only_selects_the_launcher<R>(
    s: PreviewScheduler<R>,
    request: R,
    desired_changed: bool,
)
    requires
        s.wf(),
        s.active,
        !s.task_running,
        s.queued is None,
        s.should_generate(desired_changed),
    ensures
        s.queue_decision(PreviewJob { request, async_generation: true }, desired_changed)
            == QueueDecision::Spawn(PreviewJob { request, async_generation: true }),
        s.queue_decision(PreviewJob { request, async_generation: false }, desired_changed)
            == QueueDecision::RunInline(PreviewJob { request, async_generation: false }),
{
}

/// Law: the first queueing pass of an active runtime with nothing in flight
/// and nothing completed yet always generates.
pub proof fn lemma_first_pass_generates<R>(
    s: PreviewScheduler<R>,
    desired: PreviewJob<R>,
    desired_changed: bool,
)
    requires
        s.wf(),
        s.active,
        !s.task_running,
        s.completed_jobs == 0,
    ensures
        !(s.queue_decision(desired, desired_changed) is Idle),
{
}

/// Law: with a result already published, no change and nothing held back,
/// a queueing pass generates nothing and changes nothing.
pub proof fn lemma_quiet_pass_is_idle<R>(
    s: PreviewScheduler<R>,
    desired: PreviewJob<R>,
    running_matches: bool,
)
    requires
        s.wf(),
        !s.task_running,
        s.completed_jobs > 0,
        s.queued is None,
    ensures
        s.queue_decision(desired, false) is Idle,
        s.after_queue(desired, false, running_matches) == s,
{
}

/// Law: `queued_jobs` counts the passes that generate; a generating pass
/// spawns a task exactly for asynchronous jobs and leaves one in flight
/// exactly then.
pub proof fn lemma_generation_is_counted<R>(
    s: PreviewScheduler<R>,
    desired: PreviewJob<R>,
    desired_changed: bool,
    running_matches: bool,
)
    requires
        s.wf(),
    ensures
        ({
            let d = s.queue_decision(desired, desired_changed);
            let t = s.after_queue(desired, desired_changed, running_matches);
            &&& (d is Idle ==> t.queued_jobs == s.queued_jobs && t.task_running == s.task_running)
            &&& (!(d is Idle) ==> t.queued_jobs == saturating_inc(s.queued_jobs))
            &&& (d is Spawn ==> t.task_running)
            &&& (d is RunInline ==> !t.task_running)
        }),
{
}

/// Law: a deactivated runtime generates nothing and counts nothing until it
/// is activated again.
pub proof fn lemma_deactivated_runtime_is_inert<R>(
    s: PreviewScheduler<R>,
    desired: PreviewJob<R>,
    desired_changed: bool,
    running_matches: bool,
    signature: u64,
)
    ensures
        s.deactivated().queue_decision(desired, desired_changed) is Idle,
        s.deactivated().after_queue(desired, desired_changed, running_matches) == s.deactivated(),
        s.deactivated().after_finish() == s.deactivated(),
        s.deactivated().after_publish(signature) == s.deactivated(),
{
}

/// Law: publishing counts one more completed job and records its signature.
pub proof fn lemma_publish_records_signature<R>(s: PreviewScheduler<R>, signature: u64)
    requires
        s.active,
        s.completed_jobs < u64::MAX,
    ensures
        s.after_publish(signature).completed_jobs == s.completed_jobs + 1,
        s.after_publish(signature).last_signature == signature,
{
}

} // verus!
