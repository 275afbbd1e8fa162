//! Request mirroring: the concurrency budget shared by all mirrored
//! subrequests, and the per-chunk forwarding plan of one mirror.
use std::sync::Arc;
use tokio::sync::{OwnedSemaphorePermit, Semaphore};
use vstd::prelude::*;

verus! {

/// Mirrors that may run at once when no budget was configured.
pub const MAX_ACTIVE_REQUEST_MIRRORS: usize = 1024;

/// tokio's `Semaphore::MAX_PERMITS` (`usize::MAX >> 3`).
pub const SEMAPHORE_MAX_PERMITS: usize = !0usize >> 3;

/// Warnings about skipped, dropped or failed mirrors are logged for the first
/// event and then once per this many events.
pub const MIRROR_WARN_INTERVAL: u64 = 256;

#[verifier::external_type_specification]
#[verifier::external_body]
pub struct ExOwnedSemaphorePermit(OwnedSemaphorePermit);

/// The mirror semaphore: a tokio `Semaphore` behind an `Arc`, whose clones
/// only the permits it hands out hold. Its permits are added and forgotten
/// only through the functions below, which take it mutably, so the total
/// they state is the semaphore's; a permit, when dropped, gives back only
/// itself.
#[verifier::external_body]
pub struct MirrorSemaphore {
    semaphore: Arc<Semaphore>,
}

/// The semaphore's total permits: those held by running mirrors plus those
/// available.
pub uninterp spec fn spec_semaphore_total(semaphore: MirrorSemaphore) -> nat;

/// `Semaphore::new` behind an `Arc`: a semaphore of `permits` permits, none
/// held. tokio panics above `MAX_PERMITS`, so the call is only made below it.
#[verifier::external_body]
fn new_shared_semaphore(permits: usize) -> (semaphore: MirrorSemaphore)
    requires
        permits <= SEMAPHORE_MAX_PERMITS,
    ensures
        spec_semaphore_total(semaphore) == permits,
{
    MirrorSemaphore { semaphore: Arc::new(Semaphore::new(permits)) }
}

/// `Semaphore::available_permits`: at most the total, since the rest are
/// held. The exact number depends on concurrent holders.
#[verifier::external_body]
fn semaphore_available_permits(semaphore: &MirrorSemaphore) -> (permits: usize)
    ensures
        permits <= spec_semaphore_total(*semaphore),
{
    semaphore.semaphore.available_permits()
}

/// `Semaphore::add_permits`: the total grows by `n`. tokio panics when the
/// available permits plus `n` pass `MAX_PERMITS`; the available ones never
/// exceed the total, so the call is made only when the total plus `n` stays
/// within it.
#[verifier::external_body]
fn semaphore_add_permits(semaphore: &mut MirrorSemaphore, n: usize)
    requires
        spec_semaphore_total(*old(semaphore)) + n <= SEMAPHORE_MAX_PERMITS,
    ensures
        spec_semaphore_total(*final(semaphore)) == spec_semaphore_total(*old(semaphore)) + n,
{
    semaphore.semaphore.add_permits(n)
}

/// `Semaphore::forget_permits`: removes at most `n` of the available permits
/// (so no more than the total) and returns how many it removed; the total
/// shrinks by that many.
#[verifier::external_body]
fn semaphore_forget_permits(semaphore: &mut MirrorSemaphore, n: usize) -> (forgotten: usize)
    ensures
        forgotten <= n,
        forgotten <= spec_semaphore_total(*old(semaphore)),
        spec_semaphore_total(*final(semaphore)) == spec_semaphore_total(*old(semaphore))
            - forgotten,
{
    semaphore.semaphore.forget_permits(n)
}

/// `Semaphore::try_acquire_owned` on a clone of the shared handle; `None`
/// when no permit is free (or the semaphore was closed). Whether one is free
/// depends on concurrent holders, so nothing more is claimed; the total is
/// unchanged.
#[verifier::external_body]
fn semaphore_try_acquire_owned(semaphore: &MirrorSemaphore) -> Option<OwnedSemaphorePermit> {
    semaphore.semaphore.clone().try_acquire_owned().ok()
}

/// The limit that `configure_request_mirror_budget` records for a request:
/// zero is raised to one.
pub open spec fn spec_effective_mirror_limit(requested: usize) -> usize {
    if requested == 0 {
        1
    } else {
        requested
    }
}

/// A configured limit is never replaced: only the first configuration counts.
pub open spec fn spec_configured_limit(current: Option<usize>, requested: usize) -> Option<usize> {
    match current {
        Some(limit) => Some(limit),
        None => Some(spec_effective_mirror_limit(requested)),
    }
}

/// How a live semaphore is brought to a newly configured limit.
#[derive(Debug, Clone, Copy, PartialEq, Eq)]
pub enum PermitAdjustment {
    Add(usize),
    Forget(usize),
    Keep,
}

pub open spec fn spec_permit_adjustment(current: usize, limit: usize) -> PermitAdjustment {
    if current < limit {
        PermitAdjustment::Add((limit - current) as usize)
    } else if current > limit {
        PermitAdjustment::Forget((current - limit) as usize)
    } else {
        PermitAdjustment::Keep
    }
}

/// The change that takes `current` available permits to `limit`.
pub fn permit_adjustment(current: usize, limit: usize) -> (adjustment: PermitAdjustment)
    ensures
        adjustment == spec_permit_adjustment(current, limit),
{
    if current < limit {
        PermitAdjustment::Add(limit - current)
    } else if current > limit {
        PermitAdjustment::Forget(current - limit)
    } else {
        PermitAdjustment::Keep
    }
}

/// The process-wide mirror budget: a limit that is set at most once and the
/// semaphore that hands out one permit per running mirror.
pub struct RequestMirrorBudget {
    limit: Option<usize>,
    semaphore: Option<MirrorSemaphore>,
}

impl RequestMirrorBudget {
    pub closed spec fn configured_limit(&self) -> Option<usize> {
        self.limit
    }

    pub closed spec fn has_semaphore(&self) -> bool {
        self.semaphore.is_some()
    }

    /// The semaphore's total permits (held and available); zero while there
    /// is no semaphore.
    pub closed spec fn permit_total(&self) -> nat {
        match self.semaphore {
            Some(s) => spec_semaphore_total(s),
            None => 0,
        }
    }

    /// A configured limit is at least one; the semaphore's total stays
    /// within tokio's maximum, and a semaphore made before any configuration
    /// holds the default number of permits.
    pub open spec fn wf(&self) -> bool {
        &&& match self.configured_limit() {
            Some(limit) => limit >= 1,
            None => true,
        }
        &&& self.permit_total() <= SEMAPHORE_MAX_PERMITS
        &&& !self.has_semaphore() ==> self.permit_total() == 0
        &&& self.has_semaphore() && self.configured_limit() is None ==> self.permit_total()
            == MAX_ACTIVE_REQUEST_MIRRORS
    }

    /// The limit in force: the configured one, or the default.
    pub open spec fn spec_limit(&self) -> usize {
        match self.configured_limit() {
            Some(limit) => limit,
            None => MAX_ACTIVE_REQUEST_MIRRORS,
        }
    }

    /// A budget that nothing has configured or used yet.
    pub fn new() -> (budget: Self)
        ensures
            budget.wf(),
            budget.configured_limit() is None,
            !budget.has_semaphore(),
            budget.permit_total() == 0,
    {
        RequestMirrorBudget { limit: None, semaphore: None }
    }
}

/// The semaphore's total after it is brought to `limit`: having seen
/// `observed` available permits, the missing ones are added, though never
/// past tokio's maximum counting the held ones; surplus ones are forgotten,
/// of which tokio removed `forgotten`.
pub open spec fn spec_total_after_adjustment(total: nat, observed: nat, forgotten: nat, limit: nat) -> nat {
    if observed < limit {
        if total + (limit - observed) <= SEMAPHORE_MAX_PERMITS {
            (total + (limit - observed)) as nat
        } else {
            SEMAPHORE_MAX_PERMITS as nat
        }
    } else if observed > limit {
        (total - forgotten) as nat
    } else {
        total
    }
}

/// Sets the mirror concurrency limit once (zero counts as one); later calls
/// change nothing. A semaphore that already exists is brought to the new
/// limit by adding or forgetting permits.
pub fn configure_request_mirror_budget(budget: &mut RequestMirrorBudget, limit: usize)
    requires
        old(budget).wf(),
    ensures
        final(budget).wf(),
        final(budget).configured_limit() == spec_configured_limit(
            old(budget).configured_limit(),
            limit,
        ),
        final(budget).has_semaphore() == old(budget).has_semaphore(),
        !(old(budget).has_semaphore() && old(budget).configured_limit() is None)
            ==> final(budget).permit_total() == old(budget).permit_total(),
        old(budget).has_semaphore() && old(budget).configured_limit() is None ==> exists|
            observed: nat,
            forgotten: nat,
        |
            {
                &&& observed <= old(budget).permit_total()
                &&& forgotten <= old(budget).permit_total()
                &&& forgotten <= (if observed > spec_effective_mirror_limit(limit) {
                    observed - spec_effective_mirror_limit(limit)
                } else {
                    0
                })
                &&& final(budget).permit_total() == #[trigger] spec_total_after_adjustment(
                    old(budget).permit_total(),
                    observed,
                    forgotten,
                    spec_effective_mirror_limit(limit) as nat,
                )
            },
{
    let limit = if limit < 1 {
        1
    } else {
        limit
    };
    if budget.limit.is_some() {
        return ;
    }
    budget.limit = Some(limit);
    assert(SEMAPHORE_MAX_PERMITS >= 2048) by (bit_vector);
    match &mut budget.semaphore {
        Some(semaphore) => {
            let ghost total = spec_semaphore_total(*semaphore);
            let current = semaphore_available_permits(semaphore);
            let mut forgotten: usize = 0;
            assert(total == MAX_ACTIVE_REQUEST_MIRRORS);
            match permit_adjustment(current, limit) {
                PermitAdjustment::Add(n) => {
                    let room = SEMAPHORE_MAX_PERMITS - MAX_ACTIVE_REQUEST_MIRRORS;
                    let add = if n <= room {
                        n
                    } else {
                        room
                    };
                    semaphore_add_permits(semaphore, add);
                },
                PermitAdjustment::Forget(n) => {
                    forgotten = semaphore_forget_permits(semaphore, n);
                },
                PermitAdjustment::Keep => {},
            }
            assert(spec_semaphore_total(*semaphore) == spec_total_after_adjustment(
                total,
                current as nat,
                forgotten as nat,
                limit as nat,
            ));
        },
        None => {},
    }
}

/// The limit in force: the configured one, or 1024.
pub fn request_mirror_budget_limit(budget: &RequestMirrorBudget) -> (limit: usize)
    ensures
        limit == budget.spec_limit(),
{
    match budget.limit {
        Some(limit) => limit,
        None => MAX_ACTIVE_REQUEST_MIRRORS,
    }
}

/// Takes one permit for a new mirror, creating the semaphore with the limit
/// in force on first use. `None` means the budget is exhausted and the mirror
/// is skipped. The limit itself never changes here.
pub fn acquire_request_mirror_permit(budget: &mut RequestMirrorBudget) -> (permit: Option<
    OwnedSemaphorePermit,
>)
    requires
        old(budget).wf(),
        old(budget).spec_limit() <= SEMAPHORE_MAX_PERMITS,
    ensures
        final(budget).wf(),
        final(budget).configured_limit() == old(budget).configured_limit(),
        final(budget).has_semaphore(),
        old(budget).has_semaphore() ==> final(budget).permit_total() == old(budget).permit_total(),
        !old(budget).has_semaphore() ==> final(budget).permit_total() == old(budget).spec_limit(),
{
    if budget.semaphore.is_none() {
        let limit = request_mirror_budget_limit(budget);
        budget.semaphore = Some(new_shared_semaphore(limit));
    }
    match &budget.semaphore {
        Some(semaphore) => semaphore_try_acquire_owned(semaphore),
        None => None,
    }
}

/// Whether the `count`-th occurrence of a rate-limited warning is logged:
/// the first one, and every `interval`-th after it.
pub fn should_warn(count: u64, interval: u64) -> (warn: bool)
    requires
        interval > 0,
    ensures
        warn == (count == 1 || count % interval == 0),
{
    count == 1 || count % interval == 0
}

/// What one mirror is sent for one downstream body chunk.
#[derive(Debug, Clone, Copy, PartialEq, Eq)]
pub struct MirrorForwardPlan {
    pub send_body: bool,
    pub send_done: bool,
}

/// A mirror that does not forward bodies is sent nothing; otherwise a
/// non-empty chunk is forwarded, then the end-of-stream marker when the
/// stream ends.
pub fn mirror_forward_plan(
    forwards_body: bool,
    chunk_len: Option<usize>,
    end_of_stream: bool,
) -> (plan: MirrorForwardPlan)
    ensures
        plan.send_body == (forwards_body && chunk_len is Some && chunk_len->0 > 0),
        plan.send_done == (forwards_body && end_of_stream),
{
    if !forwards_body {
        return MirrorForwardPlan { send_body: false, send_done: false };
    }
    let send_body = match chunk_len {
        Some(len) => len > 0,
        None => false,
    };
    MirrorForwardPlan { send_body, send_done: end_of_stream }
}

/// One send towards a mirror.
#[derive(Debug, Clone, Copy, PartialEq, Eq)]
pub enum MirrorSend {
    /// The body chunk.
    Body,
    /// The end-of-stream marker.
    Done,
}

/// The sends a plan makes, in order: the chunk, then the end marker.
pub open spec fn spec_planned_sends(plan: MirrorForwardPlan) -> Seq<MirrorSend> {
    (if plan.send_body {
        seq![MirrorSend::Body]
    } else {
        Seq::empty()
    }) + (if plan.send_done {
        seq![MirrorSend::Done]
    } else {
        Seq::empty()
    })
}

/// What forwarding a chunk to a mirror does next.
#[derive(Debug, Clone, Copy, PartialEq, Eq)]
pub enum MirrorForwardStep {
    /// Try this send.
    Send(MirrorSend),
    /// Stop: whether the mirror is kept.
    Finished(bool),
}

/// The forwarding loop of one mirror: `attempted` planned sends were tried,
/// all of them successfully when `last_ok`. It stops at the first failed
/// send with `false`; after every planned send succeeded (or when nothing is
/// planned) it ends with `true`.
pub fn mirror_forward_step(plan: MirrorForwardPlan, attempted: usize, last_ok: bool) -> (step:
    MirrorForwardStep)
    requires
        attempted <= spec_planned_sends(plan).len(),
    ensures
        !last_ok ==> step == MirrorForwardStep::Finished(false),
        last_ok && attempted < spec_planned_sends(plan).len() ==> step == MirrorForwardStep::Send(
            spec_planned_sends(plan)[attempted as int],
        ),
        last_ok && attempted == spec_planned_sends(plan).len() ==> step
            == MirrorForwardStep::Finished(true),
{
    if !last_ok {
        return MirrorForwardStep::Finished(false);
    }
    let body: usize = if plan.send_body {
        1
    } else {
        0
    };
    let done: usize = if plan.send_done {
        1
    } else {
        0
    };
    if attempted < body {
        MirrorForwardStep::Send(MirrorSend::Body)
    } else if attempted < body + done {
        MirrorForwardStep::Send(MirrorSend::Done)
    } else {
        MirrorForwardStep::Finished(true)
    }
}

/// Configuring twice keeps the first limit: the second request is ignored.
pub proof fn lemma_mirror_budget_set_once(current: Option<usize>, first: usize, second: usize)
    ensures
        spec_configured_limit(spec_configured_limit(current, first), second)
            == spec_configured_limit(current, first),
{
}

/// With no permit held, the available permits are all of them; bringing the
/// semaphore to a limit then leaves exactly that many permits in it, once
/// every surplus permit was forgotten.
pub proof fn lemma_adjusted_total_is_limit(total: nat, forgotten: nat, limit: nat)
    requires
        limit <= SEMAPHORE_MAX_PERMITS,
        total > limit ==> forgotten == total - limit,
    ensures
        spec_total_after_adjustment(total, total, forgotten, limit) == limit,
{
}

/// A live semaphore's permits after the adjustment equal the limit.
pub proof fn lemma_permit_adjustment_reaches_limit(current: usize, limit: usize)
    ensures
        match spec_permit_adjustment(current, limit) {
            PermitAdjustment::Add(n) => current + n == limit,
            PermitAdjustment::Forget(n) => current - n == limit,
            PermitAdjustment::Keep => current == limit,
        },
{
}

} // verus!
