//! The schedule engine.
//!
//! Schedule objects decide what they command at a given moment; this module decides
//! when to ask, refreshes the Calendar objects their exceptions point at, and pushes
//! the result to the objects each schedule drives.
//!
//! Calendars are refreshed first, so a schedule evaluated later in the same tick sees
//! today's answer rather than yesterday's.
//!
//! Like the event engine, the engine takes the date and time as arguments rather than
//! reading a clock, which keeps the resolution rules testable and leaves the caller
//! owning its time source.

use crate::object::base;
use crate::object::database;
use crate::object::database::{DatabaseView, ObjectDatabase};
use crate::object::error::ObjectErrorView;
use crate::object::hostable::Hostable;
use crate::object::identifier::{ObjectIdentifier, ObjectType};
use crate::object::schedule::Schedule;
use crate::property::value::{ObjectPropertyReference, PropertyValue, PropertyValueView};
use crate::table::Table;
use vstd::prelude::*;

verus! {

/// One write a schedule issued to a target.
#[derive(Debug, Clone, PartialEq)]
pub struct ScheduledWrite {
    /// The schedule that issued it.
    pub schedule: ObjectIdentifier,
    /// The property it was written to.
    pub target: ObjectPropertyReference,
    /// The value written.
    pub value: PropertyValue,
    /// The command priority used.
    pub priority: u8,
    /// Whether the hosted database accepted the write. A schedule may name a
    /// property on another device, which only the caller can reach.
    pub applied: bool,
}

/// What one write says.
pub struct WriteView {
    pub schedule: ObjectIdentifier,
    pub target: ObjectPropertyReference,
    pub value: PropertyValueView,
    pub priority: u8,
    pub applied: bool,
}

impl View for ScheduledWrite {
    type V = WriteView;

    open spec fn view(&self) -> WriteView {
        WriteView {
            schedule: self.schedule,
            target: self.target,
            value: self.value.model(),
            priority: self.priority,
            applied: self.applied,
        }
    }
}

/// What writes say.
pub open spec fn writes_view(writes: Seq<ScheduledWrite>) -> Seq<WriteView> {
    writes.map_values(|write: ScheduledWrite| write@)
}

/// Whether writing a value to a target at a priority may leave `after`, applied or
/// not.
pub open spec fn target_written<T: Hostable>(
    before: DatabaseView<T>,
    after: DatabaseView<T>,
    target: ObjectPropertyReference,
    value: PropertyValueView,
    priority: u8,
    applied: bool,
) -> bool {
    exists|written: PropertyValue, outcome: Result<(), ObjectErrorView>|
        written.model() == value && applied == (outcome is Ok) && #[trigger] before.writing(
            after,
            target.object_identifier,
            target.property_identifier,
            written,
            Some(priority),
            outcome,
        )
}

/// Whether writing a value to targets one after the other may leave `after`, with
/// these writes to show for it.
pub open spec fn targets_written<T: Hostable>(
    before: DatabaseView<T>,
    after: DatabaseView<T>,
    schedule: ObjectIdentifier,
    targets: Seq<ObjectPropertyReference>,
    value: PropertyValueView,
    priority: u8,
    writes: Seq<WriteView>,
) -> bool
    decreases targets.len(),
{
    &&& writes.len() == targets.len()
    &&& if targets.len() == 0 {
        after == before
    } else {
        let last = writes.last();
        &&& last.schedule == schedule
        &&& last.target == targets.last()
        &&& last.value == value
        &&& last.priority == priority
        &&& exists|between: DatabaseView<T>|
            #![trigger target_written(between, after, targets.last(), value, priority, last.applied)]
            targets_written(
                before,
                between,
                schedule,
                targets.drop_last(),
                value,
                priority,
                writes.drop_last(),
            ) && target_written(between, after, targets.last(), value, priority, last.applied)
    }
}

/// A database after a schedule took a commanded value.
pub open spec fn schedule_committed<T: Hostable>(
    before: DatabaseView<T>,
    after: DatabaseView<T>,
    identifier: ObjectIdentifier,
    schedule: Schedule,
    value: PropertyValueView,
) -> bool {
    exists|commanded: PropertyValue|
        #![trigger commanded.model()]
        commanded.model() == value && after == before.with_object(
            identifier,
            before.object(identifier).with_schedule(
                Schedule { present_value: commanded, ..schedule },
            ),
        )
}

/// What is left by a step of the engine.
pub struct ScheduleStep<T> {
    pub database: DatabaseView<T>,
    pub primed: Set<ObjectIdentifier>,
    pub writes: Seq<WriteView>,
}

/// Whether evaluating one schedule may lead to this step.
///
/// A schedule that is out of service, or that commands what it already reports,
/// writes nothing; the first time, it writes in any case, so that its targets hear
/// of it.
pub open spec fn schedule_evaluated<T: Hostable>(
    database: DatabaseView<T>,
    primed: Set<ObjectIdentifier>,
    identifier: ObjectIdentifier,
    date: (u16, u8, u8, u8),
    time: (u8, u8, u8, u8),
    covered: spec_fn(ObjectIdentifier) -> bool,
    step: ScheduleStep<T>,
) -> bool {
    let idle = ScheduleStep { database, primed, writes: Seq::<WriteView>::empty() };
    match database.schedule(identifier) {
        None => step == idle,
        Some(schedule) => {
            let value = schedule@.commanded(date, time, covered);
            if schedule.out_of_service || (value.same(schedule@.present_value) && primed.contains(
                identifier,
            )) {
                step == idle
            } else {
                &&& step.primed == primed.insert(identifier)
                &&& exists|committed: DatabaseView<T>|
                    #![trigger schedule_committed(database, committed, identifier, schedule, value)]
                    schedule_committed(database, committed, identifier, schedule, value)
                        && targets_written(
                        committed,
                        step.database,
                        identifier,
                        schedule@.targets,
                        value,
                        schedule@.priority_for_writing,
                        step.writes,
                    )
            }
        },
    }
}

/// Whether evaluating schedules one after the other may lead to this step.
pub open spec fn schedules_evaluated<T: Hostable>(
    database: DatabaseView<T>,
    primed: Set<ObjectIdentifier>,
    identifiers: Seq<ObjectIdentifier>,
    date: (u16, u8, u8, u8),
    time: (u8, u8, u8, u8),
    covered: spec_fn(ObjectIdentifier) -> bool,
    step: ScheduleStep<T>,
) -> bool
    decreases identifiers.len(),
{
    if identifiers.len() == 0 {
        step == (ScheduleStep { database, primed, writes: Seq::<WriteView>::empty() })
    } else {
        exists|before: ScheduleStep<T>, last: ScheduleStep<T>|
            #![trigger joined(before, last)]
            schedules_evaluated(
                database,
                primed,
                identifiers.drop_last(),
                date,
                time,
                covered,
                before,
            ) && schedule_evaluated(
                before.database,
                before.primed,
                identifiers.last(),
                date,
                time,
                covered,
                last,
            ) && step == joined(before, last)
    }
}

/// Two steps as one.
pub open spec fn joined<T: Hostable>(
    before: ScheduleStep<T>,
    last: ScheduleStep<T>,
) -> ScheduleStep<T> {
    ScheduleStep { writes: before.writes + last.writes, ..last }
}

/// A schedule that was driven before and commands what it reports writes nothing,
/// and leaves the database as it is.
pub proof fn law_unchanged_value_writes_nothing<T: Hostable>(
    database: DatabaseView<T>,
    primed: Set<ObjectIdentifier>,
    identifier: ObjectIdentifier,
    date: (u16, u8, u8, u8),
    time: (u8, u8, u8, u8),
    covered: spec_fn(ObjectIdentifier) -> bool,
    step: ScheduleStep<T>,
)
    requires
        schedule_evaluated(database, primed, identifier, date, time, covered, step),
        primed.contains(identifier),
        database.schedule(identifier) matches Some(schedule) && schedule@.commanded(
            date,
            time,
            covered,
        ).same(schedule@.present_value),
    ensures
        step.database == database,
        step.writes.len() == 0,
{
}

/// A schedule that is out of service drives nothing.
pub proof fn law_decoupled_schedule_is_silent<T: Hostable>(
    database: DatabaseView<T>,
    primed: Set<ObjectIdentifier>,
    identifier: ObjectIdentifier,
    date: (u16, u8, u8, u8),
    time: (u8, u8, u8, u8),
    covered: spec_fn(ObjectIdentifier) -> bool,
    step: ScheduleStep<T>,
)
    requires
        schedule_evaluated(database, primed, identifier, date, time, covered, step),
        database.schedule(identifier) matches Some(schedule) && schedule.out_of_service,
    ensures
        step.database == database,
        step.primed == primed,
        step.writes.len() == 0,
{
}

/// A schedule in service that was never driven writes its value to every target,
/// whatever it already reports.
pub proof fn law_first_tick_reaches_every_target<T: Hostable>(
    database: DatabaseView<T>,
    primed: Set<ObjectIdentifier>,
    identifier: ObjectIdentifier,
    date: (u16, u8, u8, u8),
    time: (u8, u8, u8, u8),
    covered: spec_fn(ObjectIdentifier) -> bool,
    step: ScheduleStep<T>,
    schedule: Schedule,
)
    requires
        schedule_evaluated(database, primed, identifier, date, time, covered, step),
        !primed.contains(identifier),
        database.schedule(identifier) == Some(schedule),
        !schedule.out_of_service,
    ensures
        step.primed.contains(identifier),
        step.writes.len() == schedule@.targets.len(),
        forall|k: int|
            0 <= k < step.writes.len() ==> {
                let write = #[trigger] step.writes[k];
                &&& write.schedule == identifier
                &&& write.target == schedule@.targets[k]
                &&& write.value == schedule@.commanded(date, time, covered)
                &&& write.priority == schedule@.priority_for_writing
            },
{
    let value = schedule@.commanded(date, time, covered);
    let committed = choose|committed: DatabaseView<T>|
        #![trigger schedule_committed(database, committed, identifier, schedule, value)]
        schedule_committed(database, committed, identifier, schedule, value) && targets_written(
            committed,
            step.database,
            identifier,
            schedule@.targets,
            value,
            schedule@.priority_for_writing,
            step.writes,
        );
    lemma_writes_name_targets(
        committed,
        step.database,
        identifier,
        schedule@.targets,
        value,
        schedule@.priority_for_writing,
        step.writes,
    );
}

proof fn lemma_writes_name_targets<T: Hostable>(
    before: DatabaseView<T>,
    after: DatabaseView<T>,
    schedule: ObjectIdentifier,
    targets: Seq<ObjectPropertyReference>,
    value: PropertyValueView,
    priority: u8,
    writes: Seq<WriteView>,
)
    requires
        targets_written(before, after, schedule, targets, value, priority, writes),
    ensures
        writes.len() == targets.len(),
        forall|k: int|
            0 <= k < writes.len() ==> {
                let write = #[trigger] writes[k];
                &&& write.schedule == schedule
                &&& write.target == targets[k]
                &&& write.value == value
                &&& write.priority == priority
            },
    decreases targets.len(),
{
    if targets.len() > 0 {
        let last = writes.last();
        let between = choose|between: DatabaseView<T>|
            #![trigger target_written(between, after, targets.last(), value, priority, last.applied)]
            targets_written(
                before,
                between,
                schedule,
                targets.drop_last(),
                value,
                priority,
                writes.drop_last(),
            ) && target_written(between, after, targets.last(), value, priority, last.applied);
        lemma_writes_name_targets(
            before,
            between,
            schedule,
            targets.drop_last(),
            value,
            priority,
            writes.drop_last(),
        );
        assert forall|k: int| 0 <= k < writes.len() implies {
            let write = #[trigger] writes[k];
            &&& write.schedule == schedule
            &&& write.target == targets[k]
            &&& write.value == value
            &&& write.priority == priority
        } by {
            if k < writes.len() - 1 {
                assert(writes[k] == writes.drop_last()[k]);
            }
        }
    }
}

/// Drives every Schedule object in a database.
pub struct ScheduleEngine {
    primed: Table<ObjectIdentifier, ()>,
}

/// Whether an identifier is one of those listed.
fn is_listed(identifiers: &Vec<ObjectIdentifier>, identifier: ObjectIdentifier) -> (listed: bool)
    ensures
        listed == identifiers@.contains(identifier),
{
    let mut i: usize = 0;
    while i < identifiers.len()
        invariant
            i <= identifiers.len(),
            forall|j: int| 0 <= j < i ==> identifiers@[j] != identifier,
        decreases identifiers.len() - i,
    {
        if identifiers[i] == identifier {
            assert(identifiers@[i as int] == identifier);
            return true;
        }
        i += 1;
    }
    false
}

impl Default for ScheduleEngine {
    fn default() -> (engine: ScheduleEngine)
        ensures
            engine.wf(),
            engine.driven() == Set::<ObjectIdentifier>::empty(),
    {
        let engine = ScheduleEngine { primed: Table::new() };
        proof {
            assert(engine.driven() =~= Set::<ObjectIdentifier>::empty());
        }
        engine
    }
}

impl ScheduleEngine {
    /// Schedules that have written to their targets at least once.
    ///
    /// Without this a schedule whose stored Present_Value already matches what the
    /// first tick computes would never write, leaving its targets at whatever they
    /// held at startup.
    pub closed spec fn driven(&self) -> Set<ObjectIdentifier> {
        self.primed@.dom()
    }

    /// Whether the engine keeps its books in order.
    pub closed spec fn wf(&self) -> bool {
        self.primed.wf()
    }

    /// Create an engine that has driven nothing yet.
    pub fn new() -> (engine: ScheduleEngine)
        ensures
            engine.wf(),
            engine.driven() == Set::<ObjectIdentifier>::empty(),
    {
        ScheduleEngine::default()
    }

    /// Refresh every Calendar, then evaluate every Schedule and write to the targets
    /// of those whose value changed.
    ///
    /// `date` is (year, month, day, weekday) with weekday 1 for Monday; `time` is
    /// (hour, minute, second, hundredths).
    pub fn tick<T: Hostable>(
        &mut self,
        database: &mut ObjectDatabase<T>,
        date: (u16, u8, u8, u8),
        time: (u8, u8, u8, u8),
    ) -> (writes: Vec<ScheduledWrite>)
        requires
            old(self).wf(),
            old(database)@.wf(),
        ensures
            final(self).wf(),
            final(database)@.wf(),
            schedules_evaluated(
                old(database)@.calendars_refreshed(date),
                old(self).driven(),
                database::identities(
                    database::of_type(
                        old(database)@.calendars_refreshed(date).objects,
                        ObjectType::Schedule,
                        old(database)@.device,
                    ),
                ),
                date,
                time,
                |calendar: ObjectIdentifier| old(database)@.is_active(calendar, date),
                ScheduleStep {
                    database: final(database)@,
                    primed: final(self).driven(),
                    writes: writes_view(writes@),
                },
            ),
    {
        let ghost covered = |calendar: ObjectIdentifier|
            old(database)@.is_active(calendar, date);
        let active_calendars = database.refresh_calendars(date);
        let ghost refreshed = database@;
        let ghost driven = self.driven();
        let identifiers = database.get_objects_by_type(ObjectType::Schedule);
        let mut writes: Vec<ScheduledWrite> = Vec::new();
        let mut i: usize = 0;
        proof {
            assert(identifiers@.take(0) =~= Seq::<ObjectIdentifier>::empty());
            assert(writes_view(writes@) =~= Seq::<WriteView>::empty());
        }
        while i < identifiers.len()
            invariant
                i <= identifiers.len(),
                self.wf(),
                database@.wf(),
                covered == (|calendar: ObjectIdentifier|
                    old(database)@.is_active(calendar, date)),
                forall|calendar: ObjectIdentifier|
                    #![trigger active_calendars@.contains(calendar)]
                    active_calendars@.contains(calendar) == covered(calendar),
                schedules_evaluated(
                    refreshed,
                    driven,
                    identifiers@.take(i as int),
                    date,
                    time,
                    covered,
                    ScheduleStep {
                        database: database@,
                        primed: self.driven(),
                        writes: writes_view(writes@),
                    },
                ),
            decreases identifiers.len() - i,
        {
            let identifier = identifiers[i];
            let ghost before = ScheduleStep {
                database: database@,
                primed: self.driven(),
                writes: writes_view(writes@),
            };
            let ghost earlier = writes@;
            let mut more = self.evaluate_schedule(
                database,
                identifier,
                date,
                time,
                &active_calendars,
                Ghost(covered),
            );
            let ghost last = ScheduleStep {
                database: database@,
                primed: self.driven(),
                writes: writes_view(more@),
            };
            let ghost added = more@;
            writes.append(&mut more);
            proof {
                let longer = identifiers@.take(i + 1);
                assert(longer.drop_last() =~= identifiers@.take(i as int));
                assert(longer.last() == identifier);
                assert(writes_view(writes@) =~= writes_view(earlier) + writes_view(added));
                assert(joined(before, last) == (ScheduleStep {
                    database: database@,
                    primed: self.driven(),
                    writes: writes_view(writes@),
                }));
            }
            i += 1;
        }
        proof {
            assert(identifiers@.take(identifiers@.len() as int) =~= identifiers@);
        }
        writes
    }

    /// Evaluate one schedule, committing and distributing a new value.
    fn evaluate_schedule<T: Hostable>(
        &mut self,
        database: &mut ObjectDatabase<T>,
        identifier: ObjectIdentifier,
        date: (u16, u8, u8, u8),
        time: (u8, u8, u8, u8),
        active_calendars: &Vec<ObjectIdentifier>,
        Ghost(covered): Ghost<spec_fn(ObjectIdentifier) -> bool>,
    ) -> (writes: Vec<ScheduledWrite>)
        requires
            old(self).wf(),
            old(database)@.wf(),
            forall|calendar: ObjectIdentifier|
                #![trigger active_calendars@.contains(calendar)]
                active_calendars@.contains(calendar) == covered(calendar),
        ensures
            final(self).wf(),
            final(database)@.wf(),
            schedule_evaluated(
                old(database)@,
                old(self).driven(),
                identifier,
                date,
                time,
                covered,
                ScheduleStep {
                    database: final(database)@,
                    primed: final(self).driven(),
                    writes: writes_view(writes@),
                },
            ),
    {
        let ghost before = database@;
        proof {
            assert(writes_view(Seq::<ScheduledWrite>::empty()) =~= Seq::<WriteView>::empty());
        }
        let first_tick = self.primed.get(identifier).is_none();
        let hosted = match database.object(identifier) {
            Some(object) => object.schedule(),
            None => None,
        };
        let (value, targets, priority) = match hosted {
            Some(schedule) => {
                if schedule.out_of_service {
                    return Vec::new();
                }
                let covers = |calendar: ObjectIdentifier| -> (answer: bool)
                    ensures
                        answer == active_calendars@.contains(calendar),
                    { is_listed(active_calendars, calendar) };
                let value = schedule.value_at(date, time, &covers);
                proof {
                    assert forall|calendar: ObjectIdentifier, answer: bool| #[trigger]
                        call_ensures(covers, (calendar,), answer) implies answer == covered(
                        calendar,
                    ) by {
                        assert(active_calendars@.contains(calendar) == covered(calendar));
                    }
                    assert(value.model() == schedule@.commanded(date, time, covered));
                }
                if value.same_as(&schedule.present_value) && !first_tick {
                    return Vec::new();
                }
                (
                    value,
                    copy_targets(&schedule.list_of_object_property_references),
                    schedule.priority_for_writing,
                )
            },
            _ => {
                return Vec::new();
            },
        };
        self.primed.insert(identifier, ());
        let ghost schedule = before.schedule(identifier)->Some_0;
        let ghost commanded = value.model();
        let committed = value.duplicate();
        let ghost stored = committed;
        database.commit_schedule(identifier, committed);
        let ghost start = database@;
        proof {
            assert(self.driven() =~= old(self).driven().insert(identifier));
            assert(start == before.with_object(
                identifier,
                before.object(identifier).with_schedule(
                    Schedule { present_value: stored, ..schedule },
                ),
            ));
            assert(schedule_committed(before, start, identifier, schedule, commanded));
        }
        let mut writes: Vec<ScheduledWrite> = Vec::new();
        let mut i: usize = 0;
        proof {
            assert(targets@.take(0) =~= Seq::<ObjectPropertyReference>::empty());
        }
        while i < targets.len()
            invariant
                i <= targets.len(),
                database@.wf(),
                value.model() == commanded,
                targets_written(
                    start,
                    database@,
                    identifier,
                    targets@.take(i as int),
                    commanded,
                    priority,
                    writes_view(writes@),
                ),
            decreases targets.len() - i,
        {
            let target = targets[i];
            let ghost between = database@;
            let ghost earlier = writes@;
            let written = value.duplicate();
            let ghost sent = written;
            let result = database.set_property_with_priority(
                target.object_identifier,
                target.property_identifier,
                written,
                Some(priority),
            );
            let applied = result.is_ok();
            proof {
                let outcome = base::outcome(result);
                assert(between.writing(
                    database@,
                    target.object_identifier,
                    target.property_identifier,
                    sent,
                    Some(priority),
                    outcome,
                ));
                assert(target_written(between, database@, target, commanded, priority, applied));
            }
            writes.push(
                ScheduledWrite {
                    schedule: identifier,
                    target,
                    value: value.duplicate(),
                    priority,
                    applied,
                },
            );
            proof {
                let longer = targets@.take(i + 1);
                let shown = writes_view(writes@);
                assert(longer.drop_last() =~= targets@.take(i as int));
                assert(longer.last() == target);
                assert(shown.drop_last() =~= writes_view(earlier));
                assert(shown.last() == writes@.last()@);
                assert(target_written(
                    between,
                    database@,
                    longer.last(),
                    commanded,
                    priority,
                    shown.last().applied,
                ));
                assert(targets_written(
                    start,
                    database@,
                    identifier,
                    longer,
                    commanded,
                    priority,
                    shown,
                ));
            }
            i += 1;
        }
        proof {
            assert(targets@.take(targets@.len() as int) =~= targets@);
        }
        writes
    }
}

fn copy_targets(targets: &Vec<ObjectPropertyReference>) -> (copy: Vec<ObjectPropertyReference>)
    ensures
        copy@ == targets@,
{
    let mut copy: Vec<ObjectPropertyReference> = Vec::new();
    let mut i: usize = 0;
    while i < targets.len()
        invariant
            i <= targets.len(),
            copy@ == targets@.take(i as int),
        decreases targets.len() - i,
    {
        copy.push(targets[i]);
        proof {
            assert(targets@.take(i + 1) =~= targets@.take(i as int).push(targets@[i as int]));
        }
        i += 1;
    }
    proof {
        assert(targets@.take(targets@.len() as int) =~= targets@);
    }
    copy
}

} // verus!
