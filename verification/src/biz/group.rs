//! The group resolver: which chat group stands behind a logical channel on
//! a given day, and the protocol by which a missing group is created
//! exactly once.
//!
//! Creating a group takes calls to the chat platform, which only the
//! caller can make. The resolver is therefore a state machine: the caller
//! reports what happened, the resolver answers with the next step.
use crate::biz::cards::{copy_texts, texts};
use crate::db::{Group, Store};
use crate::keyed::{first_with, has_key, lemma_first_with, Keyed};
use crate::localtime::{format_local, shanghai_text};
use vstd::prelude::*;
use vstd::string::*;

verus! {

/// The pattern of the date that is added to a channel's name.
pub open spec fn date_pattern() -> Seq<char> {
    "%m-%d"@
}

/// The name of the group of the channel `name` on the day written `date`.
pub open spec fn dated_name_spec(name: Seq<char>, date: Seq<char>, dev: bool) -> Seq<char> {
    if dev {
        name + " dev "@ + date
    } else {
        name + " "@ + date
    }
}

/// The name of the group of the channel `name` on the day written `date`;
/// a development build keeps its groups apart by the word `dev`.
pub fn dated_name(name: &str, date: &str, dev: bool) -> (r: String)
    ensures
        r@ == dated_name_spec(name@, date@, dev),
{
    let mut out = String::from_str(name);
    if dev {
        out.append(" dev ");
    } else {
        out.append(" ");
    }
    out.append(date);
    out
}

/// The name of the group of the channel `name` on the Shanghai calendar
/// day of the instant `time`; `None` where the instant is outside the
/// range of the calendar.
pub fn group_name(name: &str, time: i64, dev: bool) -> (r: Option<String>)
    ensures
        r is Some <==> shanghai_text(time as int, date_pattern()) is Some,
        r matches Some(out) ==> out@ == dated_name_spec(
            name@,
            shanghai_text(time as int, date_pattern())->0,
            dev,
        ),
{
    match format_local(time, "%m-%d") {
        Some(date) => Some(dated_name(name, date.as_str(), dev)),
        None => None,
    }
}

/// How far the resolution of a group has come.
#[derive(Debug, Clone, Copy, PartialEq, Eq, Structural)]
pub enum Phase {
    /// Nothing has been looked up yet.
    Start,
    /// No record was found; the creation lock has been asked for.
    AwaitLock,
    /// The lock is held and the platform has been asked for the group.
    AwaitGroup,
    /// The lock is held and the required members are being added.
    AwaitMembers,
    /// The group is known.
    Done,
    /// The resolution was given up.
    Failed,
}

/// The kind of thing that the caller reports.
#[derive(Debug, Clone, Copy, PartialEq, Eq, Structural)]
pub enum Signal {
    /// The resolution is to begin.
    Begin,
    /// The creation lock was acquired.
    LockAcquired,
    /// The platform created the group, or found it.
    GroupReady,
    /// The required members are in the group.
    MembersReady,
    /// A call to the platform failed.
    Failed,
}

/// What the caller reports.
#[derive(Debug, Clone)]
pub enum Event {
    Begin,
    LockAcquired,
    GroupReady { chat_id: String },
    MembersReady,
    Failed,
}

impl Event {
    /// The kind of this event.
    pub open spec fn signal(&self) -> Signal {
        match *self {
            Event::Begin => Signal::Begin,
            Event::LockAcquired => Signal::LockAcquired,
            Event::GroupReady { .. } => Signal::GroupReady,
            Event::MembersReady => Signal::MembersReady,
            Event::Failed => Signal::Failed,
        }
    }
}

/// What the caller is to do next.
#[derive(Debug, Clone)]
pub enum Step {
    /// Acquire the process-wide creation lock, then report `LockAcquired`.
    AcquireLock,
    /// Ask the platform to create the group of this name, or to fetch it.
    CreateOrGetGroup { name: String },
    /// Make sure that these users are members of the group.
    EnsureMembers { chat_id: String, user_ids: Vec<String> },
    /// The group is resolved.
    Finish(Group),
    /// The resolution failed.
    Abort,
}

/// The next step, and whether the creation lock is to be released before
/// it is taken.
#[derive(Debug, Clone)]
pub struct Move {
    pub step: Step,
    pub release_lock: bool,
}

/// Whether the creation lock is held in a phase.
pub open spec fn holds_lock(phase: Phase) -> bool {
    phase == Phase::AwaitGroup || phase == Phase::AwaitMembers
}

/// The phase that follows when `signal` is reported in `phase`, where
/// `recorded` says whether the group has a record at that moment and
/// `named` whether the platform's id of the group is known. A report that
/// does not belong to the phase ends the resolution.
pub open spec fn phase_after(phase: Phase, signal: Signal, recorded: bool, named: bool) -> Phase {
    match (phase, signal) {
        (Phase::Start, Signal::Begin) => if recorded {
            Phase::Done
        } else {
            Phase::AwaitLock
        },
        (Phase::AwaitLock, Signal::LockAcquired) => if recorded {
            Phase::Done
        } else {
            Phase::AwaitGroup
        },
        (Phase::AwaitGroup, Signal::GroupReady) => Phase::AwaitMembers,
        (Phase::AwaitMembers, Signal::MembersReady) => if recorded || !named {
            Phase::Failed
        } else {
            Phase::Done
        },
        (Phase::Done, _) => Phase::Done,
        _ => Phase::Failed,
    }
}

/// Whether a group record is written when `signal` is reported.
pub open spec fn writes_record(phase: Phase, signal: Signal, recorded: bool, named: bool) -> bool {
    phase == Phase::AwaitMembers && signal == Signal::MembersReady && !recorded && named
}

/// Whether the lock is given back when `signal` is reported: it was held,
/// or has just been acquired, and the phase that follows does not hold it.
pub open spec fn releases_lock(phase: Phase, signal: Signal, recorded: bool, named: bool) -> bool {
    (holds_lock(phase) || (phase == Phase::AwaitLock && signal == Signal::LockAcquired)) && !holds_lock(
        phase_after(phase, signal, recorded, named),
    )
}

/// The resolution of one group.
#[derive(Debug, Clone)]
pub struct Resolver {
    /// The dated name of the group.
    pub name: String,
    pub phase: Phase,
    /// The platform's id of the group, once the platform has answered.
    pub chat_id: Option<String>,
}

impl Resolver {
    /// A resolution that has not begun.
    pub fn new(name: String) -> (r: Resolver)
        ensures
            r.name == name,
            r.phase == Phase::Start,
            r.chat_id is None,
    {
        Resolver { name, phase: Phase::Start, chat_id: None }
    }

    /// Takes the caller's report and answers with the next step.
    ///
    /// The store is read before the lock is asked for and again once it is
    /// held; a record is written only while the lock is held, after the
    /// platform has named the group and the members are in it.
    pub fn advance(&mut self, store: &mut Store, event: Event, user_ids: &Vec<String>) -> (m: Move)
        requires
            old(store).wf(),
        ensures
            final(store).wf(),
            final(store).records() == old(store).records(),
            final(self).name == old(self).name,
            final(self).phase == phase_after(
                old(self).phase,
                event.signal(),
                has_key(old(store).group_records(), old(self).name@),
                old(self).chat_id is Some,
            ),
            m.release_lock == releases_lock(
                old(self).phase,
                event.signal(),
                has_key(old(store).group_records(), old(self).name@),
                old(self).chat_id is Some,
            ),
            if old(self).phase == Phase::AwaitGroup && event is GroupReady {
                final(self).chat_id matches Some(id) && id@ == event->chat_id@
            } else {
                final(self).chat_id == old(self).chat_id
            },
            if writes_record(
                old(self).phase,
                event.signal(),
                has_key(old(store).group_records(), old(self).name@),
                old(self).chat_id is Some,
            ) {
                &&& final(store).group_records().len() == old(store).group_records().len() + 1
                &&& final(store).group_records().drop_last() == old(store).group_records()
                &&& final(store).group_records().last().name@ == old(self).name@
                &&& final(store).group_records().last().chat_id@ == old(self).chat_id->0@
            } else {
                final(store).group_records() == old(store).group_records()
            },
            match final(self).phase {
                Phase::Start => false,
                Phase::AwaitLock => m.step is AcquireLock,
                Phase::AwaitGroup => (m.step matches Step::CreateOrGetGroup { name } && name@ == old(
                    self,
                ).name@),
                Phase::AwaitMembers => (m.step matches Step::EnsureMembers { chat_id, user_ids: ids }
                    && (event matches Event::GroupReady { chat_id: given } && chat_id@ == given@)
                    && texts(ids@) == texts(user_ids@)),
                Phase::Done => if old(self).phase == Phase::Done {
                    m.step is Abort
                } else {
                    let records = final(store).group_records();
                    m.step matches Step::Finish(g) && g.name@ == old(self).name@ && has_key(
                        records,
                        old(self).name@,
                    ) && g.chat_id@ == records[first_with(records, old(self).name@)->0].chat_id@
                },
                Phase::Failed => m.step is Abort,
            },
    {
        let held = match self.phase {
            Phase::AwaitGroup => true,
            Phase::AwaitMembers => true,
            _ => false,
        };
        match (self.phase, event) {
            (Phase::Start, Event::Begin) => match store.from_name(self.name.as_str()) {
                Some(group) => {
                    self.phase = Phase::Done;
                    Move { step: Step::Finish(group), release_lock: false }
                },
                None => {
                    self.phase = Phase::AwaitLock;
                    Move { step: Step::AcquireLock, release_lock: false }
                },
            },
            (Phase::AwaitLock, Event::LockAcquired) => match store.from_name(self.name.as_str()) {
                Some(group) => {
                    self.phase = Phase::Done;
                    Move { step: Step::Finish(group), release_lock: true }
                },
                None => {
                    self.phase = Phase::AwaitGroup;
                    Move { step: Step::CreateOrGetGroup { name: self.name.clone() }, release_lock: false }
                },
            },
            (Phase::AwaitGroup, Event::GroupReady { chat_id }) => {
                self.phase = Phase::AwaitMembers;
                let step = Step::EnsureMembers {
                    chat_id: chat_id.clone(),
                    user_ids: copy_texts(user_ids),
                };
                self.chat_id = Some(chat_id);
                Move { step, release_lock: false }
            },
            (Phase::AwaitMembers, Event::MembersReady) => {
                let written = match &self.chat_id {
                    Some(chat_id) => store.insert_group(self.name.as_str(), chat_id.as_str()),
                    None => {
                        self.phase = Phase::Failed;
                        return Move { step: Step::Abort, release_lock: true };
                    },
                };
                match written {
                    Ok(group) => {
                        proof {
                            let records = store.group_records();
                            lemma_first_with(records, self.name@);
                            lemma_first_with(old(store).group_records(), self.name@);
                            assert(records[records.len() - 1].key() == self.name@);
                            let i = first_with(records, self.name@)->0;
                            if i < records.len() - 1 {
                                assert(records.drop_last()[i] == records[i]);
                                assert(old(store).group_records()[i].key() == self.name@);
                            }
                        }
                        self.phase = Phase::Done;
                        Move { step: Step::Finish(group), release_lock: true }
                    },
                    Err(_) => {
                        self.phase = Phase::Failed;
                        Move { step: Step::Abort, release_lock: true }
                    },
                }
            },
            (Phase::Done, _) => Move { step: Step::Abort, release_lock: false },
            _ => {
                self.phase = Phase::Failed;
                Move { step: Step::Abort, release_lock: held }
            },
        }
    }
}

/// Begins the resolution of the group of the channel `name` on the
/// Shanghai calendar day of the instant `time`; `None` where the instant
/// is outside the range of the calendar.
pub fn create_group_with_time(name: &str, time: i64, dev: bool) -> (r: Option<Resolver>)
    ensures
        r is Some <==> shanghai_text(time as int, date_pattern()) is Some,
        r matches Some(resolver) ==> {
            &&& resolver.phase == Phase::Start
            &&& resolver.chat_id is None
            &&& resolver.name@ == dated_name_spec(
                name@,
                shanghai_text(time as int, date_pattern())->0,
                dev,
            )
        },
{
    match group_name(name, time, dev) {
        Some(dated) => Some(Resolver::new(dated)),
        None => None,
    }
}

/// Begins the resolution of today's group of the channel `name`, `now`
/// being the present instant.
pub fn create_group(name: &str, now: i64, dev: bool) -> (r: Option<Resolver>)
    ensures
        r is Some <==> shanghai_text(now as int, date_pattern()) is Some,
        r matches Some(resolver) ==> {
            &&& resolver.phase == Phase::Start
            &&& resolver.chat_id is None
            &&& resolver.name@ == dated_name_spec(
                name@,
                shanghai_text(now as int, date_pattern())->0,
                dev,
            )
        },
{
    create_group_with_time(name, now, dev)
}

/// Several resolutions of one group that run side by side.
pub struct World {
    /// The number of group records under the name.
    pub recorded: nat,
    /// The number of groups of the name on the chat platform.
    pub platform: nat,
    /// Which resolution holds the creation lock.
    pub holder: Option<int>,
    /// The phase of each resolution.
    pub phases: Seq<Phase>,
}

/// `n` resolutions that have not begun; the platform may know the group
/// already.
pub open spec fn initial_world(n: nat, platform: nat) -> World {
    World { recorded: 0, platform, holder: None, phases: Seq::new(n, |i: int| Phase::Start) }
}

/// Whether `signal` can be reported to the resolution `i`: the lock is
/// acquired only while nobody holds it.
pub open spec fn enabled(w: World, i: int, signal: Signal) -> bool {
    0 <= i < w.phases.len() && (signal == Signal::LockAcquired ==> w.holder is None)
}

/// The world after `signal` was reported to the resolution `i`. A
/// resolution that waits for the members has been told the group's id
/// when it came there.
pub open spec fn deliver(w: World, i: int, signal: Signal) -> World {
    let phase = w.phases[i];
    let recorded = w.recorded > 0;
    let next = phase_after(phase, signal, recorded, true);
    World {
        recorded: if writes_record(phase, signal, recorded, true) {
            w.recorded + 1
        } else {
            w.recorded
        },
        platform: if phase == Phase::AwaitGroup && signal == Signal::GroupReady && w.platform == 0 {
            1
        } else {
            w.platform
        },
        holder: if holds_lock(next) {
            Some(i)
        } else if releases_lock(phase, signal, recorded, true) {
            None
        } else {
            w.holder
        },
        phases: w.phases.update(i, next),
    }
}

/// The world after the reports of `schedule` were delivered in order, each
/// to the resolution it names. A report that cannot be made is skipped.
pub open spec fn run(w: World, schedule: Seq<(int, Signal)>) -> World
    decreases schedule.len(),
{
    if schedule.len() == 0 {
        w
    } else {
        let before = run(w, schedule.drop_last());
        let (i, signal) = schedule.last();
        if enabled(before, i, signal) {
            deliver(before, i, signal)
        } else {
            before
        }
    }
}

/// What holds of every world that the protocol can reach: at most one
/// record and one platform group; the lock is held by exactly the
/// resolutions that are past acquiring it, which is at most one; and while
/// it is held there is no record yet.
pub open spec fn consistent(w: World) -> bool {
    &&& w.recorded <= 1
    &&& w.platform <= 1
    &&& w.holder matches Some(h) ==> 0 <= h < w.phases.len() && holds_lock(w.phases[h]) && w.recorded
        == 0
    &&& forall|i: int| 0 <= i < w.phases.len() && holds_lock(#[trigger] w.phases[i]) ==> w.holder
        == Some(i)
    &&& forall|i: int| 0 <= i < w.phases.len() && #[trigger] w.phases[i] == Phase::Done ==> w.recorded
        == 1
}

proof fn lemma_deliver_consistent(w: World, i: int, signal: Signal)
    requires
        consistent(w),
        enabled(w, i, signal),
    ensures
        consistent(deliver(w, i, signal)),
{
    let after = deliver(w, i, signal);
    assert forall|j: int| 0 <= j < after.phases.len() && holds_lock(#[trigger] after.phases[j])
        implies after.holder == Some(j) by {
        if j != i {
            assert(after.phases[j] == w.phases[j]);
        }
    }
    assert forall|j: int| 0 <= j < after.phases.len() && #[trigger] after.phases[j]
        == Phase::Done implies after.recorded == 1 by {
        if j != i {
            assert(after.phases[j] == w.phases[j]);
        }
    }
    if after.holder is Some {
        let h = after.holder->0;
        if h != i {
            assert(after.phases[h] == w.phases[h]);
        }
    }
}

/// However the resolutions of one group are interleaved, the group is
/// recorded at most once and exists at most once on the platform; no two
/// resolutions are past the lock at the same time; and every resolution
/// that has come to a good end has found the one record.
pub proof fn lemma_group_created_once(n: nat, platform: nat, schedule: Seq<(int, Signal)>)
    requires
        platform <= 1,
    ensures
        consistent(run(initial_world(n, platform), schedule)),
        run(initial_world(n, platform), schedule).recorded <= 1,
        run(initial_world(n, platform), schedule).platform <= 1,
        run(initial_world(n, platform), schedule).phases.len() == n,
        forall|i: int, j: int|
            0 <= i < n && 0 <= j < n && holds_lock(
                #[trigger] run(initial_world(n, platform), schedule).phases[i],
            ) && holds_lock(#[trigger] run(initial_world(n, platform), schedule).phases[j]) ==> i
                == j,
        forall|i: int|
            0 <= i < n && #[trigger] run(initial_world(n, platform), schedule).phases[i]
                == Phase::Done ==> run(initial_world(n, platform), schedule).recorded == 1,
    decreases schedule.len(),
{
    if schedule.len() > 0 {
        lemma_group_created_once(n, platform, schedule.drop_last());
        let before = run(initial_world(n, platform), schedule.drop_last());
        let (i, signal) = schedule.last();
        if enabled(before, i, signal) {
            lemma_deliver_consistent(before, i, signal);
        }
    }
}

} // verus!
