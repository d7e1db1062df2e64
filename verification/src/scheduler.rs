//! The scheduler actor's bookkeeping: which jobs are registered, what
//! the actor does for a command, and what it replies.

use vstd::prelude::*;
use vstd::string::*;
use crate::text::{is_white, is_white_space, same_text};
use crate::virt::{ErrorView, VirtError};

verus! {

/// A request for a recurring job.
#[derive(Clone, Debug, PartialEq, Eq)]
pub struct SchedTaskConfig {
    pub dom_name: String,
    pub cron: String,
}

/// A command for the scheduler actor.
#[derive(Clone, Debug, PartialEq, Eq)]
pub enum SchedCommand {
    /// Register a recurring job.
    Add(SchedTaskConfig),
    /// Remove the job with this identifier.
    Delete(String),
}

/// The mathematical value of a [`SchedCommand`].
pub enum SchedCommandView {
    Add { dom_name: Seq<char>, cron: Seq<char> },
    Delete(Seq<char>),
}

impl View for SchedCommand {
    type V = SchedCommandView;

    open spec fn view(&self) -> SchedCommandView {
        match self {
            SchedCommand::Add(config) => SchedCommandView::Add {
                dom_name: config.dom_name@,
                cron: config.cron@,
            },
            SchedCommand::Delete(id) => SchedCommandView::Delete(id@),
        }
    }
}

/// A registered job.
#[derive(Clone, Debug, PartialEq, Eq)]
pub struct ScheduledJob {
    /// The identifier that the scheduler assigned.
    pub id: String,
    pub dom_name: String,
    pub cron: String,
}

/// The mathematical value of a [`ScheduledJob`].
pub struct JobView {
    pub id: Seq<char>,
    pub dom_name: Seq<char>,
    pub cron: Seq<char>,
}

impl View for ScheduledJob {
    type V = JobView;

    open spec fn view(&self) -> JobView {
        JobView { id: self.id@, dom_name: self.dom_name@, cron: self.cron@ }
    }
}

/// The values of a sequence of jobs.
pub open spec fn job_views(jobs: Seq<ScheduledJob>) -> Seq<JobView> {
    jobs.map_values(|j: ScheduledJob| j@)
}

/// Whether the scheduler accepts `expr` as a cron expression.
pub uninterp spec fn cron_accepted(expr: Seq<char>) -> bool;

/// `tokio_cron_scheduler::Job::new` with a job that does nothing:
/// whether the scheduler can make a job of this cron expression, which
/// depends on the expression alone.
#[verifier::external_body]
fn cron_is_accepted(expr: &str) -> (accepted: bool)
    ensures
        accepted == cron_accepted(expr@),
{
    tokio_cron_scheduler::Job::new(expr, |_id, _scheduler| {}).is_ok()
}

/// Whether a field of `s` starts at index `i`: a character that is not
/// white space, at the start or after white space.
pub open spec fn starts_field(s: Seq<char>, i: int) -> bool {
    !is_white_space(s[i]) && (i == 0 || is_white_space(s[i - 1]))
}

/// The number of fields of `s`: the runs of characters that are not
/// white space.
pub open spec fn field_count(s: Seq<char>) -> nat
    decreases s.len(),
{
    if s.len() == 0 {
        0
    } else {
        field_count(s.drop_last()) + if starts_field(s, s.len() - 1) {
            1nat
        } else {
            0nat
        }
    }
}

/// The expression as the scheduler is asked for it: one of five fields
/// has no seconds field and gets the seconds field `0` in front; every
/// other expression is taken as it is.
pub open spec fn with_seconds_text(expr: Seq<char>) -> Seq<char> {
    if field_count(expr) == 5 {
        "0 "@ + expr
    } else {
        expr
    }
}

/// The number of fields of an expression.
pub fn count_fields(expr: &str) -> (count: usize)
    ensures
        count == field_count(expr@),
{
    let len = expr.unicode_len();
    let mut count: usize = 0;
    let mut after_space = true;
    let mut i: usize = 0;
    assert(expr@.take(0) =~= Seq::<char>::empty());
    while i < len
        invariant
            i <= len,
            len == expr@.len(),
            count <= i,
            count == field_count(expr@.take(i as int)),
            after_space == (i == 0 || is_white_space(expr@[i - 1])),
        decreases len - i,
    {
        let white = is_white(expr.get_char(i));
        proof {
            let next = expr@.take(i + 1);
            assert(next.drop_last() =~= expr@.take(i as int));
            assert(next[i as int] == expr@[i as int]);
            if i > 0 {
                assert(next[i - 1] == expr@[i - 1]);
            }
        }
        if !white && after_space {
            count += 1;
        }
        after_space = white;
        i += 1;
    }
    assert(expr@.take(i as int) =~= expr@);
    count
}

/// The expression as the scheduler is asked for it.
pub fn with_seconds(expr: &str) -> (out: String)
    ensures
        out@ == with_seconds_text(expr@),
{
    if count_fields(expr) == 5 {
        let mut out = String::from_str("0 ");
        out.append(expr);
        out
    } else {
        expr.to_owned()
    }
}

/// The index of the first job with this identifier; the number of jobs
/// if there is none.
pub open spec fn position(jobs: Seq<JobView>, id: Seq<char>) -> nat
    decreases jobs.len(),
{
    if jobs.len() == 0 || jobs[0].id == id {
        0
    } else {
        1 + position(jobs.drop_first(), id)
    }
}

/// Whether a job with this identifier is registered.
pub open spec fn has_job(jobs: Seq<JobView>, id: Seq<char>) -> bool {
    position(jobs, id) < jobs.len()
}

/// No identifier is registered twice.
pub open spec fn distinct(jobs: Seq<JobView>) -> bool {
    forall|i: int, j: int|
        0 <= i < jobs.len() && 0 <= j < jobs.len() && i != j ==> (#[trigger] jobs[i]).id != (
        #[trigger] jobs[j]).id
}

pub proof fn lemma_position(jobs: Seq<JobView>, id: Seq<char>, n: int)
    requires
        0 <= n <= jobs.len(),
        forall|j: int| 0 <= j < n ==> (#[trigger] jobs[j]).id != id,
        n == jobs.len() || jobs[n].id == id,
    ensures
        position(jobs, id) == n,
    decreases n,
{
    if n > 0 {
        let rest = jobs.drop_first();
        assert forall|j: int| 0 <= j < n - 1 implies (#[trigger] rest[j]).id != id by {
            assert(rest[j] == jobs[j + 1]);
        }
        lemma_position(rest, id, n - 1);
    }
}

/// The job at `position` has the identifier, and none before it has.
pub proof fn lemma_position_finds(jobs: Seq<JobView>, id: Seq<char>)
    ensures
        position(jobs, id) <= jobs.len(),
        has_job(jobs, id) ==> jobs[position(jobs, id) as int].id == id,
        forall|j: int| 0 <= j < position(jobs, id) ==> (#[trigger] jobs[j]).id != id,
    decreases jobs.len(),
{
    if jobs.len() != 0 && jobs[0].id != id {
        let rest = jobs.drop_first();
        lemma_position_finds(rest, id);
        assert forall|j: int| 0 <= j < position(jobs, id) implies (#[trigger] jobs[j]).id != id by {
            if j > 0 {
                assert(jobs[j] == rest[j - 1]);
            }
        }
    }
}

/// What the actor does for a command.
#[derive(Clone, Debug, PartialEq, Eq)]
pub enum SchedAction {
    /// Ask the scheduler for a job with this cron expression.
    Register(String),
    /// Ask the scheduler to remove the job with this identifier.
    Unregister(String),
    /// Reply with this error without asking the scheduler.
    Refuse(VirtError),
}

/// The mathematical value of a [`SchedAction`].
pub enum SchedActionView {
    Register(Seq<char>),
    Unregister(Seq<char>),
    Refuse(ErrorView),
}

impl View for SchedAction {
    type V = SchedActionView;

    open spec fn view(&self) -> SchedActionView {
        match self {
            SchedAction::Register(cron) => SchedActionView::Register(cron@),
            SchedAction::Unregister(id) => SchedActionView::Unregister(id@),
            SchedAction::Refuse(e) => SchedActionView::Refuse(e@),
        }
    }
}

/// The error for a cron expression that the scheduler cannot read.
pub open spec fn bad_cron() -> ErrorView {
    ErrorView::SchedulerError("invalid cron expression"@)
}

/// The error for an identifier that is not registered.
pub open spec fn unknown_job() -> ErrorView {
    ErrorView::SchedulerError("unknown job identifier"@)
}

/// The error for an identifier that the scheduler handed out twice.
pub open spec fn duplicate_job() -> ErrorView {
    ErrorView::SchedulerError("duplicate job identifier"@)
}

/// Whether the scheduler accepts the expression of a command, in the
/// form in which it is asked for it. A `Delete` has none.
pub open spec fn accepted_of(command: SchedCommandView) -> bool {
    match command {
        SchedCommandView::Add { cron, .. } => cron_accepted(with_seconds_text(cron)),
        SchedCommandView::Delete(_) => false,
    }
}

/// What the actor does for a command, where `accepted` says whether the
/// scheduler accepts the expression of an `Add`: it refuses an
/// expression that the scheduler cannot read and an identifier that is
/// not registered, and asks the scheduler for everything else. The
/// scheduler is asked with a seconds field in the expression.
pub open spec fn decided(
    jobs: Seq<JobView>,
    command: SchedCommandView,
    accepted: bool,
) -> SchedActionView {
    match command {
        SchedCommandView::Add { cron, .. } => if accepted {
            SchedActionView::Register(with_seconds_text(cron))
        } else {
            SchedActionView::Refuse(bad_cron())
        },
        SchedCommandView::Delete(id) => if has_job(jobs, id) {
            SchedActionView::Unregister(id)
        } else {
            SchedActionView::Refuse(unknown_job())
        },
    }
}

/// What the scheduler answered: the identifier of the new job (for a
/// removal the text is not used), or the detail of its error.
pub open spec fn outcome_view(outcome: Result<String, String>) -> Result<Seq<char>, Seq<char>> {
    match outcome {
        Ok(text) => Ok(text@),
        Err(detail) => Err(detail@),
    }
}

/// The reply to a command whose action the scheduler answered with
/// `outcome`. `accepted` says whether the scheduler can read the cron
/// expression of an `Add`.
pub open spec fn reply_to(
    jobs: Seq<JobView>,
    command: SchedCommandView,
    accepted: bool,
    outcome: Result<Seq<char>, Seq<char>>,
) -> Result<Seq<char>, ErrorView> {
    match command {
        SchedCommandView::Add { .. } => if !accepted {
            Err(bad_cron())
        } else {
            match outcome {
                Ok(id) => if has_job(jobs, id) {
                    Err(duplicate_job())
                } else {
                    Ok(id)
                },
                Err(detail) => Err(ErrorView::SchedulerError(detail)),
            }
        },
        SchedCommandView::Delete(id) => if !has_job(jobs, id) {
            Err(unknown_job())
        } else {
            match outcome {
                Ok(_) => Ok("Delete Sucessfully"@),
                Err(detail) => Err(ErrorView::SchedulerError(detail)),
            }
        },
    }
}

/// The registered jobs after a command was replied to: a job that was
/// added is registered last, one that was deleted is gone, and an error
/// changes nothing.
pub open spec fn jobs_after(
    jobs: Seq<JobView>,
    command: SchedCommandView,
    reply: Result<Seq<char>, ErrorView>,
) -> Seq<JobView> {
    match (command, reply) {
        (SchedCommandView::Add { dom_name, cron }, Ok(id)) => jobs.push(
            JobView { id, dom_name, cron },
        ),
        (SchedCommandView::Delete(id), Ok(_)) => jobs.remove(position(jobs, id) as int),
        _ => jobs,
    }
}

/// The value of a reply.
pub open spec fn reply_view(r: Result<String, VirtError>) -> Result<Seq<char>, ErrorView> {
    match r {
        Ok(text) => Ok(text@),
        Err(e) => Err(e@),
    }
}

/// The scheduler actor's register of jobs.
#[derive(Debug)]
pub struct SchedConnect {
    jobs: Vec<ScheduledJob>,
}

impl View for SchedConnect {
    type V = Seq<JobView>;

    closed spec fn view(&self) -> Seq<JobView> {
        job_views(self.jobs@)
    }
}

impl SchedConnect {
    /// Whether the register is one that `new` and `settle` produce: no
    /// identifier is registered twice.
    pub open spec fn wf(&self) -> bool {
        distinct(self@)
    }

    /// An empty register.
    pub fn new() -> (connect: Self)
        ensures
            connect@ == Seq::<JobView>::empty(),
            connect.wf(),
    {
        let connect = SchedConnect { jobs: Vec::new() };
        assert(job_views(connect.jobs@) =~= Seq::<JobView>::empty());
        connect
    }

    fn find(&self, id: &str) -> (at: usize)
        ensures
            at == position(self@, id@),
            at <= self.jobs.len(),
            self@.len() == self.jobs.len(),
    {
        let ghost all = job_views(self.jobs@);
        let mut i: usize = 0;
        while i < self.jobs.len() && !same_text(self.jobs[i].id.as_str(), id)
            invariant
                i <= self.jobs.len(),
                all == job_views(self.jobs@),
                forall|j: int| 0 <= j < i ==> (#[trigger] all[j]).id != id@,
            decreases self.jobs.len() - i,
        {
            i += 1;
        }
        proof {
            lemma_position(all, id@, i as int);
        }
        i
    }

    /// The registered jobs, in the order of their registration.
    pub fn jobs(&self) -> (jobs: &Vec<ScheduledJob>)
        ensures
            job_views(jobs@) == self@,
    {
        &self.jobs
    }

    /// What the actor does for a command, where `accepted` says whether
    /// the scheduler accepts the expression of an `Add`.
    pub fn decide_with(&self, command: &SchedCommand, accepted: bool) -> (action: SchedAction)
        ensures
            action@ == decided(self@, command@, accepted),
    {
        match command {
            SchedCommand::Add(config) => if accepted {
                SchedAction::Register(with_seconds(config.cron.as_str()))
            } else {
                SchedAction::Refuse(
                    VirtError::SchedulerError(String::from_str("invalid cron expression")),
                )
            },
            SchedCommand::Delete(id) => if self.find(id.as_str()) < self.jobs.len() {
                SchedAction::Unregister(id.clone())
            } else {
                SchedAction::Refuse(
                    VirtError::SchedulerError(String::from_str("unknown job identifier")),
                )
            },
        }
    }

    /// What the actor does for a command. The scheduler is asked whether
    /// it accepts the expression of an `Add`.
    pub fn decide(&self, command: &SchedCommand) -> (action: SchedAction)
        ensures
            action@ == decided(self@, command@, accepted_of(command@)),
    {
        let accepted = Self::accepts(command);
        self.decide_with(command, accepted)
    }

    /// Whether the scheduler accepts the expression of a command.
    pub fn accepts(command: &SchedCommand) -> (accepted: bool)
        ensures
            accepted == accepted_of(command@),
    {
        match command {
            SchedCommand::Add(config) => {
                let asked = with_seconds(config.cron.as_str());
                cron_is_accepted(asked.as_str())
            },
            SchedCommand::Delete(_) => false,
        }
    }

    /// Takes note of what the scheduler answered to a command's action
    /// and gives the reply, where `accepted` says whether the scheduler
    /// accepts the expression of an `Add`. A command that `decide_with`
    /// refuses is refused here too, whatever the outcome says.
    pub fn settle_with(
        &mut self,
        command: SchedCommand,
        accepted: bool,
        outcome: Result<String, String>,
    ) -> (reply: Result<String, VirtError>)
        requires
            old(self).wf(),
        ensures
            final(self).wf(),
            reply_view(reply) == reply_to(old(self)@, command@, accepted, outcome_view(outcome)),
            final(self)@ == jobs_after(old(self)@, command@, reply_view(reply)),
    {
        let ghost before = job_views(self.jobs@);
        match command {
            SchedCommand::Add(config) => {
                if !accepted {
                    return Err(
                        VirtError::SchedulerError(String::from_str("invalid cron expression")),
                    );
                }
                match outcome {
                    Ok(id) => {
                        if self.find(id.as_str()) < self.jobs.len() {
                            return Err(
                                VirtError::SchedulerError(
                                    String::from_str("duplicate job identifier"),
                                ),
                            );
                        }
                        let reply = id.clone();
                        let job = ScheduledJob { id, dom_name: config.dom_name, cron: config.cron };
                        proof {
                            lemma_position_finds(before, job.id@);
                            assert(distinct(before.push(job@)));
                            assert(job_views(self.jobs@.push(job)) =~= before.push(job@));
                        }
                        self.jobs.push(job);
                        Ok(reply)
                    },
                    Err(detail) => Err(VirtError::SchedulerError(detail)),
                }
            },
            SchedCommand::Delete(id) => {
                let at = self.find(id.as_str());
                if at >= self.jobs.len() {
                    return Err(
                        VirtError::SchedulerError(String::from_str("unknown job identifier")),
                    );
                }
                match outcome {
                    Ok(_) => {
                        proof {
                            assert(job_views(self.jobs@.remove(at as int)) =~= before.remove(
                                at as int,
                            ));
                            assert(distinct(before.remove(at as int))) by {
                                let after = before.remove(at as int);
                                assert forall|i: int, j: int|
                                    0 <= i < after.len() && 0 <= j < after.len() && i != j implies (
                                #[trigger] after[i]).id != (#[trigger] after[j]).id by {
                                    let i0 = if i < at { i } else { i + 1 };
                                    let j0 = if j < at { j } else { j + 1 };
                                    assert(after[i] == before[i0]);
                                    assert(after[j] == before[j0]);
                                }
                            }
                        }
                        self.jobs.remove(at);
                        Ok(String::from_str("Delete Sucessfully"))
                    },
                    Err(detail) => Err(VirtError::SchedulerError(detail)),
                }
            },
        }
    }

    /// Takes note of what the scheduler answered to a command's action
    /// and gives the reply. The scheduler is asked whether it accepts the
    /// expression of an `Add`.
    pub fn settle(&mut self, command: SchedCommand, outcome: Result<String, String>) -> (reply:
        Result<String, VirtError>)
        requires
            old(self).wf(),
        ensures
            final(self).wf(),
            reply_view(reply) == reply_to(
                old(self)@,
                command@,
                accepted_of(command@),
                outcome_view(outcome),
            ),
            final(self)@ == jobs_after(old(self)@, command@, reply_view(reply)),
    {
        let accepted = Self::accepts(&command);
        self.settle_with(command, accepted, outcome)
    }
}

/// What the request layer does to its record of jobs after a reply.
#[derive(Clone, Debug, PartialEq, Eq)]
pub enum Persist {
    /// Store this job.
    Insert(ScheduledJob),
    /// Delete the record of the job with this identifier.
    Remove(String),
    /// Leave the records alone.
    Nothing,
}

/// The mathematical value of a [`Persist`].
pub enum PersistView {
    Insert(JobView),
    Remove(Seq<char>),
    Nothing,
}

impl View for Persist {
    type V = PersistView;

    open spec fn view(&self) -> PersistView {
        match self {
            Persist::Insert(job) => PersistView::Insert(job@),
            Persist::Remove(id) => PersistView::Remove(id@),
            Persist::Nothing => PersistView::Nothing,
        }
    }
}

/// The records follow the actor: a job is stored under the identifier
/// that the actor replied with, a record is deleted once the actor has
/// confirmed the removal, and an error changes no record.
pub open spec fn persisted(
    command: SchedCommandView,
    reply: Result<Seq<char>, ErrorView>,
) -> PersistView {
    match (command, reply) {
        (SchedCommandView::Add { dom_name, cron }, Ok(id)) => PersistView::Insert(
            JobView { id, dom_name, cron },
        ),
        (SchedCommandView::Delete(id), Ok(_)) => PersistView::Remove(id),
        _ => PersistView::Nothing,
    }
}

/// What the request layer does to its record of jobs after a reply.
pub fn persist_after(command: &SchedCommand, reply: &Result<String, VirtError>) -> (step: Persist)
    ensures
        step@ == persisted(command@, reply_view(*reply)),
{
    match reply {
        Ok(text) => match command {
            SchedCommand::Add(config) => Persist::Insert(
                ScheduledJob {
                    id: text.clone(),
                    dom_name: config.dom_name.clone(),
                    cron: config.cron.clone(),
                },
            ),
            SchedCommand::Delete(id) => Persist::Remove(id.clone()),
        },
        Err(_) => Persist::Nothing,
    }
}

/// The records and the register agree: what is stored after an `Add`
/// is the job that the register gained, and a record is removed exactly
/// when the register lost the job.
pub proof fn lemma_records_follow_register(
    jobs: Seq<JobView>,
    command: SchedCommandView,
    reply: Result<Seq<char>, ErrorView>,
)
    ensures
        persisted(command, reply) matches PersistView::Insert(job) ==> jobs_after(
            jobs,
            command,
            reply,
        ) == jobs.push(job),
        persisted(command, reply) matches PersistView::Remove(id) ==> jobs_after(
            jobs,
            command,
            reply,
        ) == jobs.remove(position(jobs, id) as int),
        persisted(command, reply) is Nothing ==> jobs_after(jobs, command, reply) == jobs,
{
}

} // verus!
