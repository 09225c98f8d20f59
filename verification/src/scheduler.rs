//! The recurrence scheduler: when a task fires next, and which tasks are
//! due.
//!
//! Times are whole milliseconds since the Unix epoch, in UTC.

use crate::text::{opt_string_view, parse_i64, spec_parse_i64, str_eq};
use std::str::FromStr;
use vstd::prelude::*;

verus! {

#[verifier::external_type_specification]
#[verifier::external_body]
pub struct ExCronError(cron::error::Error);

#[verifier::external_type_specification]
#[verifier::external_body]
pub struct ExCronSchedule(cron::Schedule);

/// A point in time: whole milliseconds since the Unix epoch, in UTC.
#[derive(Clone, Copy, Debug, PartialEq, Eq, Structural)]
pub struct Timestamp {
    pub millis: i64,
}

/// The latest time for which cron firings are computed: the last
/// millisecond of the year 9999.
pub const LAST_CRON_MILLIS: i64 = 253_402_300_799_999;

/// How a task recurs.
#[derive(Debug, Clone, Copy, PartialEq, Eq, Structural)]
pub enum ScheduleType {
    Once,
    Interval,
    Cron,
}

/// Why a schedule could not be used.
#[derive(Debug)]
pub enum SchedulerError {
    InvalidScheduleType(String),
    InvalidScheduleValue(String),
    Cron(String),
}

/// What a [`SchedulerError`] holds.
pub enum SchedulerErrorModel {
    InvalidScheduleType(Seq<char>),
    InvalidScheduleValue(Seq<char>),
    Cron(Seq<char>),
}

impl View for SchedulerError {
    type V = SchedulerErrorModel;

    open spec fn view(&self) -> SchedulerErrorModel {
        match self {
            SchedulerError::InvalidScheduleType(text) => SchedulerErrorModel::InvalidScheduleType(
                text@,
            ),
            SchedulerError::InvalidScheduleValue(text) => SchedulerErrorModel::InvalidScheduleValue(
                text@,
            ),
            SchedulerError::Cron(text) => SchedulerErrorModel::Cron(text@),
        }
    }
}

/// The view of the outcome of a schedule type's parse.
pub open spec fn type_result_view(outcome: Result<ScheduleType, SchedulerError>) -> Result<
    ScheduleType,
    SchedulerErrorModel,
> {
    match outcome {
        Ok(kind) => Ok(kind),
        Err(error) => Err(error@),
    }
}

/// The view of the outcome of a next-run computation.
pub open spec fn time_result_view(outcome: Result<Timestamp, SchedulerError>) -> Result<
    Timestamp,
    SchedulerErrorModel,
> {
    match outcome {
        Ok(time) => Ok(time),
        Err(error) => Err(error@),
    }
}

impl ScheduleType {
    /// The word under which each schedule type is stored.
    pub open spec fn spec_word(self) -> Seq<char> {
        match self {
            ScheduleType::Once => "once"@,
            ScheduleType::Interval => "interval"@,
            ScheduleType::Cron => "cron"@,
        }
    }

    /// The schedule type that a stored word names.
    pub open spec fn spec_parse(word: Seq<char>) -> Result<ScheduleType, SchedulerErrorModel> {
        if word == "once"@ {
            Ok(ScheduleType::Once)
        } else if word == "interval"@ {
            Ok(ScheduleType::Interval)
        } else if word == "cron"@ {
            Ok(ScheduleType::Cron)
        } else {
            Err(SchedulerErrorModel::InvalidScheduleType(word))
        }
    }

    pub fn as_str(&self) -> (word: &'static str)
        ensures
            word@ == self.spec_word(),
    {
        match self {
            ScheduleType::Once => "once",
            ScheduleType::Interval => "interval",
            ScheduleType::Cron => "cron",
        }
    }

    /// Reads a schedule type from its stored word; any other word is
    /// refused and reported.
    pub fn parse(value: &str) -> (outcome: Result<ScheduleType, SchedulerError>)
        ensures
            type_result_view(outcome) == ScheduleType::spec_parse(value@),
    {
        if str_eq(value, "once") {
            Ok(ScheduleType::Once)
        } else if str_eq(value, "interval") {
            Ok(ScheduleType::Interval)
        } else if str_eq(value, "cron") {
            Ok(ScheduleType::Cron)
        } else {
            Err(SchedulerError::InvalidScheduleType(value.to_owned()))
        }
    }
}

impl FromStr for ScheduleType {
    type Err = SchedulerError;

    fn from_str(value: &str) -> (outcome: Result<Self, Self::Err>)
        ensures
            type_result_view(outcome) == ScheduleType::spec_parse(value@),
    {
        ScheduleType::parse(value)
    }
}

/// Reading the stored word of a schedule type gives that type back.
pub proof fn schedule_type_word_roundtrip(kind: ScheduleType)
    ensures
        ScheduleType::spec_parse(kind.spec_word()) == Ok::<ScheduleType, SchedulerErrorModel>(kind),
{
    reveal_strlit("once");
    reveal_strlit("interval");
    reveal_strlit("cron");
    assert("once"@.len() == 4 && "interval"@.len() == 8 && "cron"@.len() == 4);
    assert("once"@[0] == 'o' && "cron"@[0] == 'c');
}

/// The text with which the `cron` crate refuses an expression; `None` for
/// an expression that it accepts.
pub uninterp spec fn cron_refusal(expression: Seq<char>) -> Option<Seq<char>>;

/// The first firing of the schedule written as `expression` that the `cron`
/// crate finds after a UTC time in milliseconds; `None` when it finds none.
pub uninterp spec fn cron_firing(expression: Seq<char>, after_millis: i64) -> Option<i64>;

/// The expression that a schedule of the `cron` crate holds: the one it was
/// read from.
pub uninterp spec fn schedule_source(schedule: cron::Schedule) -> Seq<char>;

/// The text that an error of the `cron` crate holds.
pub uninterp spec fn cron_error_message(error: cron::error::Error) -> Seq<char>;

/// `cron::Schedule::from_str`: the schedule that `expression` denotes. The
/// crate keeps the expression in the schedule it returns, and in the error
/// the text with which it refuses the expression.
#[verifier::external_body]
fn parse_schedule(expression: &str) -> (outcome: Result<cron::Schedule, cron::error::Error>)
    ensures
        match outcome {
            Ok(schedule) => cron_refusal(expression@) is None && schedule_source(schedule)
                == expression@,
            Err(error) => cron_refusal(expression@) == Some(cron_error_message(error)),
        },
{
    cron::Schedule::from_str(expression)
}

/// The first item of `cron::Schedule::after` for the UTC time
/// `after_millis`, as milliseconds. The crate looks for firings from one
/// second after the given time on, second by second, so a firing it returns
/// lies after that time.
#[verifier::external_body]
fn schedule_next_after(schedule: &cron::Schedule, after_millis: i64) -> (next: Option<i64>)
    requires
        after_millis <= LAST_CRON_MILLIS,
    ensures
        next == cron_firing(schedule_source(*schedule), after_millis),
        next matches Some(millis) ==> millis > after_millis,
{
    let after = chrono::DateTime::from_timestamp_millis(after_millis);
    after.and_then(|after| schedule.after(&after).next()).map(|next| next.timestamp_millis())
}

/// `to_string` of a `cron::error::Error`: the text that the error holds.
#[verifier::external_body]
fn cron_error_text(error: &cron::error::Error) -> (text: String)
    ensures
        text@ == cron_error_message(*error),
{
    error.to_string()
}

/// The next run that follows from what the cron crate answered: its firing
/// when it found one, else an error that says why there is none.
pub fn next_run_from_cron(answer: Result<Option<i64>, String>) -> (outcome: Result<
    Timestamp,
    SchedulerError,
>)
    ensures
        time_result_view(outcome) == match answer {
            Ok(Some(millis)) => Ok(Timestamp { millis }),
            Ok(None) => Err(SchedulerErrorModel::Cron("no upcoming cron times"@)),
            Err(text) => Err(SchedulerErrorModel::Cron(text@)),
        },
{
    match answer {
        Ok(Some(millis)) => Ok(Timestamp { millis }),
        Ok(None) => Err(SchedulerError::Cron("no upcoming cron times".to_owned())),
        Err(text) => Err(SchedulerError::Cron(text)),
    }
}

/// The next run of an interval schedule: `now` plus the interval, when the
/// value is an integer and the sum is a time that can be represented.
pub open spec fn spec_interval_next(value: Seq<char>, now: Timestamp) -> Result<
    Timestamp,
    SchedulerErrorModel,
> {
    match spec_parse_i64(value) {
        Some(interval) => if i64::MIN <= now.millis + interval <= i64::MAX {
            Ok(Timestamp { millis: (now.millis + interval) as i64 })
        } else {
            Err(SchedulerErrorModel::InvalidScheduleValue(value))
        },
        None => Err(SchedulerErrorModel::InvalidScheduleValue(value)),
    }
}

/// The next run of a cron schedule: an expression that the cron crate
/// refuses is reported with the crate's words; an accepted one runs at the
/// crate's first firing after `now`. No firing is looked for after the
/// year 9999.
pub open spec fn spec_cron_next(value: Seq<char>, now: Timestamp) -> Result<
    Timestamp,
    SchedulerErrorModel,
> {
    match cron_refusal(value) {
        Some(text) => Err(SchedulerErrorModel::Cron(text)),
        None => if now.millis > LAST_CRON_MILLIS {
            Err(SchedulerErrorModel::Cron("no upcoming cron times"@))
        } else {
            match cron_firing(value, now.millis) {
                Some(millis) => Ok(Timestamp { millis }),
                None => Err(SchedulerErrorModel::Cron("no upcoming cron times"@)),
            }
        },
    }
}

/// When a task with this schedule runs next after `now`.
///
/// An interval schedule runs again after its value in milliseconds. A cron
/// schedule runs at its first firing after `now`; the firing is the cron
/// crate's. A task that runs once has no next run.
pub fn compute_next_run(schedule_type: ScheduleType, schedule_value: &str, now: Timestamp) -> (outcome:
    Result<Timestamp, SchedulerError>)
    ensures
        time_result_view(outcome) == match schedule_type {
            ScheduleType::Interval => spec_interval_next(schedule_value@, now),
            ScheduleType::Cron => spec_cron_next(schedule_value@, now),
            ScheduleType::Once => Err(
                SchedulerErrorModel::InvalidScheduleValue(
                    "once schedules do not compute next run"@,
                ),
            ),
        },
        schedule_type == ScheduleType::Cron ==> (outcome matches Ok(next) ==> next.millis
            > now.millis),
{
    match schedule_type {
        ScheduleType::Interval => match parse_i64(schedule_value) {
            Some(interval) => match now.millis.checked_add(interval) {
                Some(millis) => Ok(Timestamp { millis }),
                None => Err(SchedulerError::InvalidScheduleValue(schedule_value.to_owned())),
            },
            None => Err(SchedulerError::InvalidScheduleValue(schedule_value.to_owned())),
        },
        ScheduleType::Cron => match parse_schedule(schedule_value) {
            Ok(schedule) => {
                if now.millis > LAST_CRON_MILLIS {
                    next_run_from_cron(Ok(None))
                } else {
                    next_run_from_cron(Ok(schedule_next_after(&schedule, now.millis)))
                }
            },
            Err(error) => next_run_from_cron(Err(cron_error_text(&error))),
        },
        ScheduleType::Once => Err(
            SchedulerError::InvalidScheduleValue(
                "once schedules do not compute next run".to_owned(),
            ),
        ),
    }
}

/// A task that runs once, at a given time.
pub struct TaskSpec {
    id: String,
    at: Timestamp,
}

/// What a [`TaskSpec`] holds.
pub struct TaskSpecModel {
    pub id: Seq<char>,
    pub at: Timestamp,
}

impl View for TaskSpec {
    type V = TaskSpecModel;

    closed spec fn view(&self) -> TaskSpecModel {
        TaskSpecModel { id: self.id@, at: self.at }
    }
}

impl TaskSpec {
    pub fn once(id: &str, at: Timestamp) -> (task: Self)
        ensures
            task@ == (TaskSpecModel { id: id@, at }),
    {
        TaskSpec { id: id.to_owned(), at }
    }

    pub fn id(&self) -> (id: &str)
        ensures
            id@ == self@.id,
    {
        self.id.as_str()
    }

    pub fn at(&self) -> (at: Timestamp)
        ensures
            at == self@.at,
    {
        self.at
    }
}

/// The views of a list of tasks.
pub open spec fn specs_view(tasks: Seq<TaskSpec>) -> Seq<TaskSpecModel> {
    tasks.map_values(|task: TaskSpec| task@)
}

/// The views of a list of borrowed tasks.
pub open spec fn spec_refs_view(tasks: Seq<&TaskSpec>) -> Seq<TaskSpecModel> {
    tasks.map_values(|task: &TaskSpec| task@)
}

/// The tasks whose time has come at `now`, in the order of `tasks`.
pub open spec fn due_specs(tasks: Seq<TaskSpecModel>, now: Timestamp) -> Seq<TaskSpecModel>
    decreases tasks.len(),
{
    if tasks.len() == 0 {
        tasks
    } else if tasks.last().at.millis <= now.millis {
        due_specs(tasks.drop_last(), now).push(tasks.last())
    } else {
        due_specs(tasks.drop_last(), now)
    }
}

/// An in-memory list of one-off tasks.
pub struct Scheduler {
    tasks: Vec<TaskSpec>,
}

impl View for Scheduler {
    type V = Seq<TaskSpecModel>;

    closed spec fn view(&self) -> Seq<TaskSpecModel> {
        specs_view(self.tasks@)
    }
}

impl Scheduler {
    pub fn new() -> (scheduler: Self)
        ensures
            scheduler@ == Seq::<TaskSpecModel>::empty(),
    {
        let tasks: Vec<TaskSpec> = Vec::new();
        assert(specs_view(tasks@) =~= Seq::<TaskSpecModel>::empty());
        Scheduler { tasks }
    }

    pub fn add(&mut self, task: TaskSpec)
        ensures
            final(self)@ == old(self)@.push(task@),
    {
        self.tasks.push(task);
        assert(specs_view(self.tasks@) =~= specs_view(old(self).tasks@).push(task@));
    }

    /// The tasks whose time is `now` or earlier, in the order in which they
    /// were added.
    pub fn due(&self, now: Timestamp) -> (due: Vec<&TaskSpec>)
        ensures
            spec_refs_view(due@) == due_specs(self@, now),
    {
        let ghost all = specs_view(self.tasks@);
        let mut due: Vec<&TaskSpec> = Vec::new();
        let mut i: usize = 0;
        assert(spec_refs_view(due@) =~= due_specs(all.take(0), now));
        while i < self.tasks.len()
            invariant
                i <= self.tasks.len(),
                all == specs_view(self.tasks@),
                spec_refs_view(due@) == due_specs(all.take(i as int), now),
            decreases self.tasks.len() - i,
        {
            let ghost next = all.take(i as int + 1);
            let ghost before = spec_refs_view(due@);
            assert(next.drop_last() =~= all.take(i as int));
            assert(next.last() == all[i as int]);
            if self.tasks[i].at.millis <= now.millis {
                due.push(&self.tasks[i]);
                assert(spec_refs_view(due@) =~= before.push(all[i as int]));
            }
            i += 1;
        }
        assert(all.take(i as int) =~= all);
        due
    }
}

/// A recurring task as the store keeps it.
#[derive(Debug)]
pub struct ScheduledTask {
    pub id: String,
    pub group_folder: String,
    pub chat_jid: String,
    pub prompt: String,
    pub schedule_type: ScheduleType,
    pub schedule_value: String,
    pub next_run: Option<Timestamp>,
    pub status: String,
    pub context_mode: String,
}

/// What a [`ScheduledTask`] holds.
pub struct ScheduledTaskModel {
    pub id: Seq<char>,
    pub group_folder: Seq<char>,
    pub chat_jid: Seq<char>,
    pub prompt: Seq<char>,
    pub schedule_type: ScheduleType,
    pub schedule_value: Seq<char>,
    pub next_run: Option<Timestamp>,
    pub status: Seq<char>,
    pub context_mode: Seq<char>,
}

impl View for ScheduledTask {
    type V = ScheduledTaskModel;

    open spec fn view(&self) -> ScheduledTaskModel {
        ScheduledTaskModel {
            id: self.id@,
            group_folder: self.group_folder@,
            chat_jid: self.chat_jid@,
            prompt: self.prompt@,
            schedule_type: self.schedule_type,
            schedule_value: self.schedule_value@,
            next_run: self.next_run,
            status: self.status@,
            context_mode: self.context_mode@,
        }
    }
}

impl Clone for ScheduledTask {
    fn clone(&self) -> (copy: Self)
        ensures
            copy@ == self@,
    {
        ScheduledTask {
            id: self.id.clone(),
            group_folder: self.group_folder.clone(),
            chat_jid: self.chat_jid.clone(),
            prompt: self.prompt.clone(),
            schedule_type: self.schedule_type,
            schedule_value: self.schedule_value.clone(),
            next_run: self.next_run,
            status: self.status.clone(),
            context_mode: self.context_mode.clone(),
        }
    }
}

impl ScheduledTaskModel {
    /// Whether the task is due at `now`: it is active and its next run is
    /// `now` or earlier.
    pub open spec fn is_due(self, now: Timestamp) -> bool {
        self.status == "active"@ && match self.next_run {
            Some(next) => next.millis <= now.millis,
            None => false,
        }
    }

    /// The time by which due tasks are ordered.
    pub open spec fn run_millis(self) -> int {
        match self.next_run {
            Some(next) => next.millis as int,
            None => 0,
        }
    }
}

/// The views of a list of stored tasks.
pub open spec fn tasks_view(tasks: Seq<ScheduledTask>) -> Seq<ScheduledTaskModel> {
    tasks.map_values(|task: ScheduledTask| task@)
}

/// Where a task that runs at `millis` goes in a list ordered by next run:
/// behind every task that runs at that time or earlier.
pub open spec fn slot_for(ordered: Seq<ScheduledTaskModel>, millis: int) -> int
    decreases ordered.len(),
{
    if ordered.len() == 0 {
        0
    } else if ordered.last().run_millis() <= millis {
        ordered.len() as int
    } else {
        slot_for(ordered.drop_last(), millis)
    }
}

/// The tasks of `tasks` that are due at `now`, ordered by next run; tasks
/// with the same next run keep the order of `tasks`.
pub open spec fn due_in_order(tasks: Seq<ScheduledTaskModel>, now: Timestamp) -> Seq<
    ScheduledTaskModel,
>
    decreases tasks.len(),
{
    if tasks.len() == 0 {
        tasks
    } else {
        let earlier = due_in_order(tasks.drop_last(), now);
        if tasks.last().is_due(now) {
            earlier.insert(slot_for(earlier, tasks.last().run_millis()), tasks.last())
        } else {
            earlier
        }
    }
}

/// Whether `tasks` is ordered by next run, earliest first.
pub open spec fn ordered_by_run(tasks: Seq<ScheduledTaskModel>) -> bool {
    forall|i: int, j: int|
        0 <= i < j < tasks.len() ==> (#[trigger] tasks[i]).run_millis() <= (
        #[trigger] tasks[j]).run_millis()
}

/// The slot of a task lies within the list, behind nothing that runs later
/// and in front of nothing that runs at the same time or earlier.
pub proof fn slot_is_ordered(ordered: Seq<ScheduledTaskModel>, millis: int)
    requires
        ordered_by_run(ordered),
    ensures
        0 <= slot_for(ordered, millis) <= ordered.len(),
        forall|k: int| 0 <= k < slot_for(ordered, millis) ==> (#[trigger] ordered[k]).run_millis()
            <= millis,
        forall|k: int|
            slot_for(ordered, millis) <= k < ordered.len() ==> (#[trigger] ordered[k]).run_millis()
                > millis,
    decreases ordered.len(),
{
    if ordered.len() > 0 {
        let front = ordered.drop_last();
        assert forall|i: int, j: int| 0 <= i < j < front.len() implies (#[trigger] front[i]).run_millis()
            <= (#[trigger] front[j]).run_millis() by {
            assert(ordered[i].run_millis() <= ordered[j].run_millis());
        }
        if ordered.last().run_millis() <= millis {
            assert forall|k: int| 0 <= k < ordered.len() implies (#[trigger] ordered[k]).run_millis()
                <= millis by {
                if k < ordered.len() - 1 {
                    assert(ordered[k].run_millis() <= ordered[ordered.len() - 1].run_millis());
                }
            }
        } else {
            slot_for_front(ordered, millis);
            slot_is_ordered(front, millis);
            assert forall|k: int| slot_for(ordered, millis) <= k < ordered.len() implies (
            #[trigger] ordered[k]).run_millis() > millis by {
                if k < front.len() {
                    assert(front[k] == ordered[k]);
                }
            }
            assert forall|k: int| 0 <= k < slot_for(ordered, millis) implies (
            #[trigger] ordered[k]).run_millis() <= millis by {
                assert(front[k] == ordered[k]);
            }
        }
    }
}

/// The slot in a list whose last task runs later is the slot in the list
/// without that task.
proof fn slot_for_front(ordered: Seq<ScheduledTaskModel>, millis: int)
    requires
        ordered.len() > 0,
        ordered.last().run_millis() > millis,
    ensures
        slot_for(ordered, millis) == slot_for(ordered.drop_last(), millis),
{
}

/// The due tasks are exactly the tasks that are due, each as often as it
/// occurs, and they are ordered by next run, earliest first.
pub proof fn due_tasks_are_due_and_ordered(tasks: Seq<ScheduledTaskModel>, now: Timestamp)
    ensures
        ordered_by_run(due_in_order(tasks, now)),
        due_in_order(tasks, now).to_multiset() == tasks.filter(
            |task: ScheduledTaskModel| task.is_due(now),
        ).to_multiset(),
        forall|k: int|
            0 <= k < due_in_order(tasks, now).len() ==> (#[trigger] due_in_order(
                tasks,
                now,
            )[k]).is_due(now),
    decreases tasks.len(),
{
    let due = |task: ScheduledTaskModel| task.is_due(now);
    reveal(Seq::filter);
    if tasks.len() > 0 {
        let front = tasks.drop_last();
        let last = tasks.last();
        due_tasks_are_due_and_ordered(front, now);
        let earlier = due_in_order(front, now);
        assert(tasks.filter(due) == if due(last) {
            front.filter(due).push(last)
        } else {
            front.filter(due)
        });
        if last.is_due(now) {
            let slot = slot_for(earlier, last.run_millis());
            slot_is_ordered(earlier, last.run_millis());
            let out = earlier.insert(slot, last);
            vstd::seq_lib::to_multiset_insert(earlier, slot, last);
            vstd::seq_lib::to_multiset_build(front.filter(due), last);
            assert forall|i: int, j: int| 0 <= i < j < out.len() implies (#[trigger] out[i]).run_millis()
                <= (#[trigger] out[j]).run_millis() by {
                if j < slot {
                    assert(out[i] == earlier[i] && out[j] == earlier[j]);
                } else if j == slot {
                    assert(out[i] == earlier[i]);
                } else if i < slot {
                    assert(out[i] == earlier[i] && out[j] == earlier[j - 1]);
                } else if i == slot {
                    assert(out[j] == earlier[j - 1]);
                } else {
                    assert(out[i] == earlier[i - 1] && out[j] == earlier[j - 1]);
                }
            }
            assert forall|k: int| 0 <= k < out.len() implies (#[trigger] out[k]).is_due(now) by {
                if k < slot {
                    assert(out[k] == earlier[k]);
                } else if k > slot {
                    assert(out[k] == earlier[k - 1]);
                }
            }
        }
    } else {
        assert(tasks.filter(due) =~= tasks);
    }
}

/// The tasks that are due at `now`: the active tasks whose next run is
/// `now` or earlier, ordered by next run, earliest first.
pub fn due_tasks(tasks: &Vec<ScheduledTask>, now: Timestamp) -> (due: Vec<ScheduledTask>)
    ensures
        tasks_view(due@) == due_in_order(tasks_view(tasks@), now),
{
    let ghost all = tasks_view(tasks@);
    let mut due: Vec<ScheduledTask> = Vec::new();
    let mut i: usize = 0;
    assert(tasks_view(due@) =~= due_in_order(all.take(0), now));
    while i < tasks.len()
        invariant
            i <= tasks.len(),
            all == tasks_view(tasks@),
            tasks_view(due@) == due_in_order(all.take(i as int), now),
        decreases tasks.len() - i,
    {
        let ghost next = all.take(i as int + 1);
        let ghost before = tasks_view(due@);
        assert(next.drop_last() =~= all.take(i as int));
        assert(next.last() == all[i as int]);
        let task = &tasks[i];
        let run = match task.next_run {
            Some(next_run) if str_eq(task.status.as_str(), "active") && next_run.millis
                <= now.millis => Some(next_run.millis),
            _ => None,
        };
        if let Some(millis) = run {
            let slot = find_slot(&due, millis);
            assert(all[i as int].run_millis() == millis);
            due.insert(slot, task.clone());
            assert(tasks_view(due@) =~= before.insert(slot as int, all[i as int]));
        }
        i += 1;
    }
    assert(all.take(i as int) =~= all);
    due
}

/// Finds where a task that runs at `millis` goes in `ordered`: behind every
/// task that runs at that time or earlier.
fn find_slot(ordered: &Vec<ScheduledTask>, millis: i64) -> (slot: usize)
    ensures
        slot == slot_for(tasks_view(ordered@), millis as int),
        slot <= ordered@.len(),
{
    let ghost all = tasks_view(ordered@);
    let mut slot: usize = ordered.len();
    assert(all.take(slot as int) =~= all);
    while slot > 0 && run_millis_of(&ordered[slot - 1]) > millis
        invariant
            slot <= ordered.len(),
            all == tasks_view(ordered@),
            slot_for(all, millis as int) == slot_for(all.take(slot as int), millis as int),
        decreases slot,
    {
        proof {
            let head = all.take(slot as int);
            assert(head.last() == all[slot as int - 1]);
            assert(head.drop_last() =~= all.take(slot as int - 1));
        }
        slot -= 1;
    }
    proof {
        let head = all.take(slot as int);
        if slot > 0 {
            assert(head.last() == all[slot as int - 1]);
        }
        assert(slot_for(head, millis as int) == slot);
    }
    slot
}

fn run_millis_of(task: &ScheduledTask) -> (millis: i64)
    ensures
        millis == task@.run_millis(),
{
    match task.next_run {
        Some(next) => next.millis,
        None => 0,
    }
}

/// The time that an RFC 3339 text denotes, in milliseconds since the Unix
/// epoch, as `chrono` reads it; `None` when `chrono` refuses the text.
pub uninterp spec fn rfc3339_millis(text: Seq<char>) -> Option<i64>;

/// The RFC 3339 text that `chrono` writes for a time in milliseconds since
/// the Unix epoch; `None` when `chrono` cannot represent the time.
pub uninterp spec fn rfc3339_text(millis: i64) -> Option<Seq<char>>;

/// `chrono::DateTime::parse_from_rfc3339`, then `timestamp_millis` of what
/// it read.
#[verifier::external_body]
fn parse_rfc3339(text: &str) -> (millis: Option<i64>)
    ensures
        millis == rfc3339_millis(text@),
{
    chrono::DateTime::parse_from_rfc3339(text).ok().map(|time| time.timestamp_millis())
}

/// `chrono::DateTime::from_timestamp_millis`, then `to_rfc3339` of the
/// time it made.
#[verifier::external_body]
fn format_rfc3339(millis: i64) -> (text: Option<String>)
    ensures
        opt_string_view(text) == rfc3339_text(millis),
{
    chrono::DateTime::from_timestamp_millis(millis).map(|time| time.to_rfc3339())
}

/// A task as its row in the store reads: every column as text.
#[derive(Debug)]
pub struct TaskRow {
    pub id: String,
    pub group_folder: String,
    pub chat_jid: String,
    pub prompt: String,
    pub schedule_type: String,
    pub schedule_value: String,
    pub next_run: Option<String>,
    pub status: String,
    pub context_mode: String,
}

/// What a [`TaskRow`] holds.
pub struct TaskRowModel {
    pub id: Seq<char>,
    pub group_folder: Seq<char>,
    pub chat_jid: Seq<char>,
    pub prompt: Seq<char>,
    pub schedule_type: Seq<char>,
    pub schedule_value: Seq<char>,
    pub next_run: Option<Seq<char>>,
    pub status: Seq<char>,
    pub context_mode: Seq<char>,
}

impl View for TaskRow {
    type V = TaskRowModel;

    open spec fn view(&self) -> TaskRowModel {
        TaskRowModel {
            id: self.id@,
            group_folder: self.group_folder@,
            chat_jid: self.chat_jid@,
            prompt: self.prompt@,
            schedule_type: self.schedule_type@,
            schedule_value: self.schedule_value@,
            next_run: opt_string_view(self.next_run),
            status: self.status@,
            context_mode: self.context_mode@,
        }
    }
}

impl TaskRowModel {
    /// The task that the row denotes. A schedule type that is no known word
    /// reads as `Once`; a next run that is no RFC 3339 time reads as none.
    pub open spec fn decoded(self) -> ScheduledTaskModel {
        ScheduledTaskModel {
            id: self.id,
            group_folder: self.group_folder,
            chat_jid: self.chat_jid,
            prompt: self.prompt,
            schedule_type: match ScheduleType::spec_parse(self.schedule_type) {
                Ok(kind) => kind,
                Err(_) => ScheduleType::Once,
            },
            schedule_value: self.schedule_value,
            next_run: match self.next_run {
                Some(text) => match rfc3339_millis(text) {
                    Some(millis) => Some(Timestamp { millis }),
                    None => None,
                },
                None => None,
            },
            status: self.status,
            context_mode: self.context_mode,
        }
    }
}

/// Reads a task from its row in the store.
pub fn decode_task(row: TaskRow) -> (task: ScheduledTask)
    ensures
        task@ == row@.decoded(),
{
    let schedule_type = match ScheduleType::parse(row.schedule_type.as_str()) {
        Ok(kind) => kind,
        Err(_) => ScheduleType::Once,
    };
    let next_run = match &row.next_run {
        Some(text) => match parse_rfc3339(text.as_str()) {
            Some(millis) => Some(Timestamp { millis }),
            None => None,
        },
        None => None,
    };
    ScheduledTask {
        id: row.id,
        group_folder: row.group_folder,
        chat_jid: row.chat_jid,
        prompt: row.prompt,
        schedule_type,
        schedule_value: row.schedule_value,
        next_run,
        status: row.status,
        context_mode: row.context_mode,
    }
}

/// What is written to a task's row after a run: the columns `last_run`,
/// `last_result` and `next_run` of the row with this id, times as RFC 3339
/// text.
#[derive(Debug)]
pub struct TaskUpdate {
    pub id: String,
    pub last_run: String,
    pub last_result: String,
    pub next_run: Option<String>,
}

/// What a [`TaskUpdate`] holds.
pub struct TaskUpdateModel {
    pub id: Seq<char>,
    pub last_run: Seq<char>,
    pub last_result: Seq<char>,
    pub next_run: Option<Seq<char>>,
}

impl View for TaskUpdate {
    type V = TaskUpdateModel;

    open spec fn view(&self) -> TaskUpdateModel {
        TaskUpdateModel {
            id: self.id@,
            last_run: self.last_run@,
            last_result: self.last_result@,
            next_run: opt_string_view(self.next_run),
        }
    }
}

/// The update for the task `id` that ran at `last_run` with `last_result`
/// and runs next at `next_run`; none when one of the times cannot be
/// written as RFC 3339 text.
pub open spec fn spec_update_after_run(
    id: Seq<char>,
    next_run: Option<Timestamp>,
    last_result: Seq<char>,
    last_run: Timestamp,
) -> Option<TaskUpdateModel> {
    match rfc3339_text(last_run.millis) {
        Some(last_run_text) => match next_run {
            Some(next) => match rfc3339_text(next.millis) {
                Some(next_text) => Some(
                    TaskUpdateModel {
                        id,
                        last_run: last_run_text,
                        last_result,
                        next_run: Some(next_text),
                    },
                ),
                None => None,
            },
            None => Some(
                TaskUpdateModel { id, last_run: last_run_text, last_result, next_run: None },
            ),
        },
        None => None,
    }
}

/// The view of an optional update.
pub open spec fn opt_update_view(update: Option<TaskUpdate>) -> Option<TaskUpdateModel> {
    match update {
        Some(update) => Some(update@),
        None => None,
    }
}

/// Prepares what is written to the row of the task `id` after a run.
pub fn update_task_after_run(
    id: &str,
    next_run: Option<Timestamp>,
    last_result: &str,
    last_run: Timestamp,
) -> (update: Option<TaskUpdate>)
    ensures
        opt_update_view(update) == spec_update_after_run(id@, next_run, last_result@, last_run),
{
    let last_run_text = match format_rfc3339(last_run.millis) {
        Some(text) => text,
        None => { return None; },
    };
    let next_run_text = match next_run {
        Some(next) => match format_rfc3339(next.millis) {
            Some(text) => Some(text),
            None => { return None; },
        },
        None => None,
    };
    Some(
        TaskUpdate {
            id: id.to_owned(),
            last_run: last_run_text,
            last_result: last_result.to_owned(),
            next_run: next_run_text,
        },
    )
}

} // verus!
