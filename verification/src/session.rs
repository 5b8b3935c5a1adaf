//! The session lifecycle controller: the state machine that arms capture for
//! one induced garbage collection, filters object-reference notifications
//! through the type identity cache, owns the Heap Snapshot Buffer, and walks
//! the session to a detachment request on every path.

use vstd::prelude::*;
use crate::counts::CountsMap;
use crate::counts::counts_entries;
use crate::counts::some_values;

verus! {

/// The lifecycle phases of one instrumentation session.
#[derive(PartialEq, Eq, Structural, Clone, Copy, Debug)]
pub enum Phase {
    Initialized,
    Armed,
    Collecting,
    Finalizing,
    ReportPending,
    Detaching,
    Done,
}

/// Why a garbage collection started: induced by this agent's own request, or
/// any other cause.
#[derive(PartialEq, Eq, Structural, Clone, Copy, Debug)]
pub enum GcReason {
    Induced,
    Other,
}

/// What the controller asks the host to do in response to an event. The
/// payloads are the watchdog bound in seconds and the detachment grace
/// period in milliseconds.
#[derive(PartialEq, Eq, Structural, Clone, Copy, Debug)]
pub enum HostAction {
    SubscribeGcEvents,
    ForceCollection,
    StartWatchdog(u64),
    Unsubscribe,
    RequestDetach(u64),
}

/// What became of one object-reference notification: ignored, recorded into
/// the buffer, or held until the caller supplies the candidate's resolved
/// type name.
#[derive(PartialEq, Eq, Structural, Clone, Copy, Debug)]
pub enum RefOutcome {
    Ignored,
    Recorded,
    NeedTypeName,
}

/// The watchdog requests detachment after this many seconds, whatever state
/// the session is in by then.
pub const WATCHDOG_BOUND_SECS: u64 = 360;

/// The grace period handed to the host with a detachment request.
pub const DETACH_GRACE_MS: u64 = 3000;

/// How many ranked entries the report carries at most.
pub const DEFAULT_MAX_REPORT_ENTRIES: usize = 100;

/// The canonical name of the target value type.
pub open spec fn target_class_name() -> Seq<char> {
    "System.String"@
}

/// The session state, seen at the specification level.
#[verifier::ext_equal]
pub struct SessionView {
    pub phase: Phase,
    pub string_class_id: Option<usize>,
    pub string_object_ids: Seq<usize>,
    pub str_counts: Seq<(Seq<char>, u64)>,
    pub number_of_str_to_print: usize,
}

/// The session state of a fresh attach.
pub open spec fn initial_session() -> SessionView {
    SessionView {
        phase: Phase::Initialized,
        string_class_id: None,
        string_object_ids: Seq::empty(),
        str_counts: Seq::empty(),
        number_of_str_to_print: DEFAULT_MAX_REPORT_ENTRIES,
    }
}

/// One event delivered to the controller, with everything the environment
/// contributes to its handling: for an object-reference notification that is
/// the type name the host's metadata interface would resolve the candidate's
/// class to (absent when resolution fails), and for finalization the
/// extraction result of each buffered handle.
pub enum Event {
    AttachRequested,
    AttachCompleted,
    ObjectRef { object_id: usize, class_id: usize, resolved_name: Option<Seq<char>> },
    GcStarted { reason: GcReason },
    GcFinished,
    Extracted { values: Seq<Option<Seq<char>>> },
    ExtractionUnavailable,
    WatchdogFired,
    DetachConfirmed,
}

/// Attach arms the session.
pub open spec fn spec_on_attach(s: SessionView) -> SessionView {
    if s.phase == Phase::Initialized {
        SessionView { phase: Phase::Armed, ..s }
    } else {
        s
    }
}

/// Only a collection whose cause is explicitly induced enables capture, and
/// only out of `Armed`.
pub open spec fn spec_on_gc_started(s: SessionView, reason: GcReason) -> SessionView {
    if s.phase == Phase::Armed && reason == GcReason::Induced {
        SessionView { phase: Phase::Collecting, ..s }
    } else {
        s
    }
}

/// One object-reference notification: ignored outside `Collecting`; compared
/// against the cached identifier when one is fixed; otherwise resolved
/// through `resolved_name`, fixing the cache and recording the same candidate
/// when the name matches, so the first matching object is not lost.
pub open spec fn spec_on_object_ref(
    s: SessionView,
    object_id: usize,
    class_id: usize,
    resolved_name: Option<Seq<char>>,
) -> SessionView {
    if s.phase != Phase::Collecting {
        s
    } else {
        match s.string_class_id {
            Some(id) => if id == class_id {
                SessionView { string_object_ids: s.string_object_ids.push(object_id), ..s }
            } else {
                s
            },
            None => match resolved_name {
                Some(nm) => if nm == target_class_name() {
                    SessionView {
                        string_class_id: Some(class_id),
                        string_object_ids: s.string_object_ids.push(object_id),
                        ..s
                    }
                } else {
                    s
                },
                None => s,
            },
        }
    }
}

/// The finished notification freezes capture and enters finalization.
pub open spec fn spec_on_gc_finished(s: SessionView) -> SessionView {
    if s.phase == Phase::Collecting {
        SessionView { phase: Phase::Finalizing, ..s }
    } else {
        s
    }
}

/// Finalization aggregates the extracted values into the Counts Mapping and
/// releases the buffered handles, which must not outlive the pass.
pub open spec fn spec_on_extracted(s: SessionView, values: Seq<Option<Seq<char>>>) -> SessionView {
    if s.phase == Phase::Finalizing {
        SessionView {
            phase: Phase::ReportPending,
            string_object_ids: Seq::empty(),
            str_counts: counts_entries(some_values(values)),
            ..s
        }
    } else {
        s
    }
}

/// When no layout descriptor can be had, finalization is aborted: the
/// handles are still released and the session still moves on towards its
/// detachment request, with the counts left empty.
pub open spec fn spec_on_extraction_unavailable(s: SessionView) -> SessionView {
    if s.phase == Phase::Finalizing {
        SessionView { phase: Phase::ReportPending, string_object_ids: Seq::empty(), ..s }
    } else {
        s
    }
}

/// The lifecycle's own detachment request.
pub open spec fn spec_request_detach(s: SessionView) -> SessionView {
    if s.phase == Phase::ReportPending {
        SessionView { phase: Phase::Detaching, ..s }
    } else {
        s
    }
}

/// Confirmed detachment ends the session.
pub open spec fn spec_on_detach_confirmed(s: SessionView) -> SessionView {
    if s.phase == Phase::Detaching {
        SessionView { phase: Phase::Done, ..s }
    } else {
        s
    }
}

/// The session state after one event.
pub open spec fn step(s: SessionView, e: Event) -> SessionView {
    match e {
        Event::AttachRequested => spec_on_attach(s),
        Event::AttachCompleted => s,
        Event::ObjectRef { object_id, class_id, resolved_name } => spec_on_object_ref(
            s,
            object_id,
            class_id,
            resolved_name,
        ),
        Event::GcStarted { reason } => spec_on_gc_started(s, reason),
        Event::GcFinished => spec_on_gc_finished(s),
        Event::Extracted { values } => spec_request_detach(spec_on_extracted(s, values)),
        Event::ExtractionUnavailable => spec_request_detach(spec_on_extraction_unavailable(s)),
        Event::WatchdogFired => s,
        Event::DetachConfirmed => spec_on_detach_confirmed(s),
    }
}

/// What the controller asks of the host on one event.
pub open spec fn step_actions(s: SessionView, e: Event) -> Seq<HostAction> {
    match e {
        Event::AttachRequested => seq![HostAction::SubscribeGcEvents],
        Event::AttachCompleted => seq![
            HostAction::ForceCollection,
            HostAction::StartWatchdog(WATCHDOG_BOUND_SECS),
        ],
        Event::ObjectRef { .. } => Seq::empty(),
        Event::GcStarted { .. } => Seq::empty(),
        Event::GcFinished => if s.phase == Phase::Collecting {
            seq![HostAction::Unsubscribe]
        } else {
            Seq::empty()
        },
        Event::Extracted { .. } => if s.phase == Phase::Finalizing {
            seq![HostAction::RequestDetach(DETACH_GRACE_MS)]
        } else {
            Seq::empty()
        },
        Event::ExtractionUnavailable => if s.phase == Phase::Finalizing {
            seq![HostAction::RequestDetach(DETACH_GRACE_MS)]
        } else {
            Seq::empty()
        },
        Event::WatchdogFired => seq![HostAction::RequestDetach(DETACH_GRACE_MS)],
        Event::DetachConfirmed => Seq::empty(),
    }
}

/// The session state after a run of events.
pub open spec fn run_state(s: SessionView, events: Seq<Event>) -> SessionView
    decreases events.len(),
{
    if events.len() == 0 {
        s
    } else {
        run_state(step(s, events.first()), events.drop_first())
    }
}

/// Everything the controller asks of the host over a run of events.
pub open spec fn run_actions(s: SessionView, events: Seq<Event>) -> Seq<HostAction>
    decreases events.len(),
{
    if events.len() == 0 {
        Seq::empty()
    } else {
        step_actions(s, events.first()) + run_actions(step(s, events.first()), events.drop_first())
    }
}

/// What an agent registry shows of this agent.
pub struct ProfilerMetadata {
    pub uuid: String,
    pub name: String,
    pub description: String,
    pub is_released: bool,
}

/// One instrumentation session: created at attach, consumed to produce the
/// report, discarded at detach.
pub struct DuplicatedStringsProfiler {
    phase: Phase,
    string_class_id: Option<usize>,
    string_object_ids: Vec<usize>,
    str_counts: CountsMap,
    number_of_str_to_print: usize,
}

impl View for DuplicatedStringsProfiler {
    type V = SessionView;

    closed spec fn view(&self) -> SessionView {
        SessionView {
            phase: self.phase,
            string_class_id: self.string_class_id,
            string_object_ids: self.string_object_ids@,
            str_counts: self.str_counts@,
            number_of_str_to_print: self.number_of_str_to_print,
        }
    }
}

impl Default for DuplicatedStringsProfiler {
    fn default() -> (s: Self)
        ensures
            s@ == initial_session(),
    {
        let s = DuplicatedStringsProfiler {
            phase: Phase::Initialized,
            string_class_id: None,
            string_object_ids: Vec::new(),
            str_counts: CountsMap::new(),
            number_of_str_to_print: DEFAULT_MAX_REPORT_ENTRIES,
        };
        proof {
            assert(s@ =~= initial_session());
        }
        s
    }
}

impl DuplicatedStringsProfiler {
    /// The agent's registry metadata.
    pub fn get_info() -> (m: ProfilerMetadata)
        ensures
            m.uuid@ == "bdaba522-104c-4343-8952-036bed81527d"@,
            m.name@ == "Duplicated Strings"@,
            m.description@ == "For now, just duplicated strings and their occurence"@,
            m.is_released,
    {
        ProfilerMetadata {
            uuid: "bdaba522-104c-4343-8952-036bed81527d".to_owned(),
            name: "Duplicated Strings".to_owned(),
            description: "For now, just duplicated strings and their occurence".to_owned(),
            is_released: true,
        }
    }

    /// The current lifecycle phase.
    pub fn phase(&self) -> (p: Phase)
        ensures
            p == self@.phase,
    {
        self.phase
    }

    /// How many ranked entries the report carries at most.
    pub fn max_report_entries(&self) -> (n: usize)
        ensures
            n == self@.number_of_str_to_print,
    {
        self.number_of_str_to_print
    }

    /// The Counts Mapping, as finalization built it.
    pub fn counts(&self) -> (m: &CountsMap)
        ensures
            m@ == self@.str_counts,
    {
        &self.str_counts
    }

    /// The handles captured so far, in capture order.
    pub fn captured_handles(&self) -> (v: Vec<usize>)
        ensures
            v@ == self@.string_object_ids,
    {
        let n = self.string_object_ids.len();
        let mut v: Vec<usize> = Vec::new();
        proof {
            assert(v@ =~= self@.string_object_ids.take(0));
        }
        let mut i: usize = 0;
        while i < n
            invariant
                n == self.string_object_ids.len(),
                i <= n,
                v@ == self@.string_object_ids.take(i as int),
            decreases n - i,
        {
            v.push(self.string_object_ids[i]);
            proof {
                assert(v@ =~= self@.string_object_ids.take(i as int + 1));
            }
            i = i + 1;
        }
        proof {
            assert(self@.string_object_ids.take(n as int) =~= self@.string_object_ids);
        }
        v
    }

    /// Attach: arm the session and ask the host to subscribe the controller
    /// to collection-lifecycle notifications, the one class it needs.
    pub fn on_attach(&mut self) -> (acts: Vec<HostAction>)
        ensures
            final(self)@ == spec_on_attach(old(self)@),
            acts@ == step_actions(old(self)@, Event::AttachRequested),
    {
        if self.phase == Phase::Initialized {
            self.phase = Phase::Armed;
        }
        let mut acts: Vec<HostAction> = Vec::new();
        acts.push(HostAction::SubscribeGcEvents);
        proof {
            assert(acts@ =~= seq![HostAction::SubscribeGcEvents]);
        }
        acts
    }

    /// Attach completion: have the host force one full collection from a
    /// context that shares no call stack with notification delivery, and
    /// start the watchdog that bounds the session's lifetime.
    pub fn on_attach_complete(&self) -> (acts: Vec<HostAction>)
        ensures
            acts@ == step_actions(self@, Event::AttachCompleted),
    {
        let mut acts: Vec<HostAction> = Vec::new();
        acts.push(HostAction::ForceCollection);
        acts.push(HostAction::StartWatchdog(WATCHDOG_BOUND_SECS));
        proof {
            assert(acts@ =~= seq![
                HostAction::ForceCollection,
                HostAction::StartWatchdog(WATCHDOG_BOUND_SECS),
            ]);
        }
        acts
    }

    /// A collection-started notification.
    pub fn on_gc_started(&mut self, reason: GcReason)
        ensures
            final(self)@ == spec_on_gc_started(old(self)@, reason),
    {
        if self.phase == Phase::Armed && reason == GcReason::Induced {
            self.phase = Phase::Collecting;
        }
    }

    /// An object-reference notification, on the fast path: decided from the
    /// session state alone. `NeedTypeName` asks the caller to resolve the
    /// candidate's type name and come back through
    /// `on_object_reference_named`; the state is left untouched until then.
    pub fn on_object_reference(&mut self, object_id: usize, class_id: usize) -> (r: RefOutcome)
        ensures
            r == RefOutcome::NeedTypeName <==> (old(self)@.phase == Phase::Collecting
                && old(self)@.string_class_id is None),
            r == RefOutcome::NeedTypeName ==> final(self)@ == old(self)@,
            r != RefOutcome::NeedTypeName ==> forall|nm: Option<Seq<char>>|
                final(self)@ == spec_on_object_ref(old(self)@, object_id, class_id, nm),
            r == RefOutcome::Recorded <==> (old(self)@.phase == Phase::Collecting
                && old(self)@.string_class_id == Some(class_id)),
    {
        if self.phase != Phase::Collecting {
            return RefOutcome::Ignored;
        }
        match self.string_class_id {
            Some(id) => {
                if id == class_id {
                    self.string_object_ids.push(object_id);
                    RefOutcome::Recorded
                } else {
                    RefOutcome::Ignored
                }
            },
            None => RefOutcome::NeedTypeName,
        }
    }

    /// An object-reference notification together with the resolved type name
    /// of its class (absent when metadata resolution failed, which counts as
    /// a non-match for this call only). When the name matches the target
    /// type's canonical name, the identity cache is fixed and the same
    /// candidate is recorded at once, so the first matching object is not
    /// lost to the one-time resolution.
    pub fn on_object_reference_named(
        &mut self,
        object_id: usize,
        class_id: usize,
        resolved_name: Option<&str>,
    ) -> (r: RefOutcome)
        ensures
            final(self)@ == spec_on_object_ref(
                old(self)@,
                object_id,
                class_id,
                opt_name_view(resolved_name),
            ),
            r != RefOutcome::NeedTypeName,
            r == RefOutcome::Recorded <==> (old(self)@.phase == Phase::Collecting
                && (old(self)@.string_class_id == Some(class_id) || (old(
                self,
            )@.string_class_id is None && opt_name_view(resolved_name) == Some(
                target_class_name(),
            )))),
    {
        if self.phase != Phase::Collecting {
            return RefOutcome::Ignored;
        }
        match self.string_class_id {
            Some(id) => {
                if id == class_id {
                    self.string_object_ids.push(object_id);
                    RefOutcome::Recorded
                } else {
                    RefOutcome::Ignored
                }
            },
            None => {
                match resolved_name {
                    Some(nm) => {
                        if is_target_class_name(nm) {
                            self.string_class_id = Some(class_id);
                            self.string_object_ids.push(object_id);
                            RefOutcome::Recorded
                        } else {
                            RefOutcome::Ignored
                        }
                    },
                    None => RefOutcome::Ignored,
                }
            },
        }
    }

    /// A collection-finished notification: capture is disabled at once, and
    /// the host is asked to drop all subscriptions, which the session no
    /// longer needs.
    pub fn on_gc_finished(&mut self) -> (acts: Vec<HostAction>)
        ensures
            final(self)@ == spec_on_gc_finished(old(self)@),
            acts@ == step_actions(old(self)@, Event::GcFinished),
    {
        let mut acts: Vec<HostAction> = Vec::new();
        if self.phase == Phase::Collecting {
            self.phase = Phase::Finalizing;
            acts.push(HostAction::Unsubscribe);
            proof {
                assert(acts@ =~= seq![HostAction::Unsubscribe]);
            }
        } else {
            proof {
                assert(acts@ =~= Seq::<HostAction>::empty());
            }
        }
        acts
    }

    /// Finalization: aggregate the values extracted out of the buffered
    /// handles (one entry per handle, absent where extraction failed) into
    /// the Counts Mapping, and release the handles, which are not valid past
    /// this pass.
    pub fn finalize(&mut self, extracted: &Vec<Option<String>>)
        ensures
            final(self)@ == spec_on_extracted(old(self)@, extracted.deep_view()),
    {
        if self.phase == Phase::Finalizing {
            self.str_counts = CountsMap::from_extracted(extracted);
            self.string_object_ids = Vec::new();
            self.phase = Phase::ReportPending;
            proof {
                assert(self@ =~= spec_on_extracted(old(self)@, extracted.deep_view()));
            }
        }
    }

    /// Finalization without a layout descriptor: nothing can be extracted,
    /// the handles are still released, and the session still moves on to its
    /// detachment request.
    pub fn finalize_failed(&mut self)
        ensures
            final(self)@ == spec_on_extraction_unavailable(old(self)@),
    {
        if self.phase == Phase::Finalizing {
            self.string_object_ids = Vec::new();
            self.phase = Phase::ReportPending;
            proof {
                assert(self@ =~= spec_on_extraction_unavailable(old(self)@));
            }
        }
    }

    /// The lifecycle's own detachment request, issued unconditionally once
    /// finalization has run or been aborted.
    pub fn request_detach(&mut self) -> (acts: Vec<HostAction>)
        ensures
            final(self)@ == spec_request_detach(old(self)@),
            acts@ == if old(self)@.phase == Phase::ReportPending {
                seq![HostAction::RequestDetach(DETACH_GRACE_MS)]
            } else {
                Seq::<HostAction>::empty()
            },
    {
        let mut acts: Vec<HostAction> = Vec::new();
        if self.phase == Phase::ReportPending {
            self.phase = Phase::Detaching;
            acts.push(HostAction::RequestDetach(DETACH_GRACE_MS));
            proof {
                assert(acts@ =~= seq![HostAction::RequestDetach(DETACH_GRACE_MS)]);
            }
        } else {
            proof {
                assert(acts@ =~= Seq::<HostAction>::empty());
            }
        }
        acts
    }

    /// The watchdog's action when it fires: request detachment, whatever
    /// state the session is in and whatever else failed before.
    pub fn on_watchdog(&self) -> (a: HostAction)
        ensures
            a == HostAction::RequestDetach(DETACH_GRACE_MS),
            step_actions(self@, Event::WatchdogFired) == seq![a],
    {
        HostAction::RequestDetach(DETACH_GRACE_MS)
    }

    /// Confirmed detachment ends the session; the report is rendered from
    /// the Counts Mapping the session now carries.
    pub fn on_detach_succeeded(&mut self)
        ensures
            final(self)@ == spec_on_detach_confirmed(old(self)@),
    {
        if self.phase == Phase::Detaching {
            self.phase = Phase::Done;
        }
    }
}

/// The view of an optional resolved type name.
pub open spec fn opt_name_view(n: Option<&str>) -> Option<Seq<char>> {
    match n {
        Some(s) => Some(s@),
        None => None,
    }
}

/// Whether a resolved type name is the target type's canonical name.
fn is_target_class_name(nm: &str) -> (b: bool)
    ensures
        b == (nm@ == target_class_name()),
{
    let owned: String = nm.to_owned();
    let target: String = "System.String".to_owned();
    owned.eq(&target)
}

/// While capture is disabled, object-reference notifications change nothing:
/// in particular, if the Heap Snapshot Buffer is empty it remains empty, for
/// every sequence of such notifications.
pub proof fn lemma_disabled_capture_ignores_references(s: SessionView, events: Seq<Event>)
    requires
        s.phase != Phase::Collecting,
        forall|i: int| 0 <= i < events.len() ==> (#[trigger] events[i]) is ObjectRef,
    ensures
        run_state(s, events) == s,
    decreases events.len(),
{
    if events.len() > 0 {
        let e = events.first();
        assert(e is ObjectRef);
        assert(step(s, e) == s);
        assert forall|i: int|
            0 <= i < events.drop_first().len() implies (#[trigger] events.drop_first()[i])
            is ObjectRef by {
            assert(events.drop_first()[i] == events[i + 1]);
        }
        lemma_disabled_capture_ignores_references(s, events.drop_first());
    }
}

/// The phases at and past finalization entry, where capture has been
/// disabled for good.
pub open spec fn past_collecting(p: Phase) -> bool {
    p == Phase::Finalizing || p == Phase::ReportPending || p == Phase::Detaching || p
        == Phase::Done
}

/// The buffer is frozen at finalization entry: once the session has left
/// `Collecting`, no event appends to the Heap Snapshot Buffer — it stays as
/// it stands until finalization releases it whole.
pub proof fn lemma_buffer_frozen_after_finish(s: SessionView, events: Seq<Event>)
    requires
        past_collecting(s.phase),
    ensures
        past_collecting(run_state(s, events).phase),
        run_state(s, events).string_object_ids == s.string_object_ids || run_state(
            s,
            events,
        ).string_object_ids == Seq::<usize>::empty(),
    decreases events.len(),
{
    if events.len() > 0 {
        let s2 = step(s, events.first());
        assert(past_collecting(s2.phase));
        assert(s2.string_object_ids == s.string_object_ids || s2.string_object_ids
            == Seq::<usize>::empty());
        lemma_buffer_frozen_after_finish(s2, events.drop_first());
    }
}

/// A collection whose cause is not explicitly induced never arms capture:
/// from `Armed`, any number of non-induced started events and finished
/// events, in any order, leaves the session exactly as it stands — it never
/// transitions out of `Armed`.
pub proof fn lemma_non_induced_collections_ignored(s: SessionView, events: Seq<Event>)
    requires
        s.phase == Phase::Armed,
        forall|i: int|
            0 <= i < events.len() ==> ((#[trigger] events[i]) matches Event::GcStarted { reason }
                && reason != GcReason::Induced) || events[i] is GcFinished,
    ensures
        run_state(s, events) == s,
    decreases events.len(),
{
    if events.len() > 0 {
        let e = events.first();
        assert(step(s, e) == s);
        assert forall|i: int|
            0 <= i < events.drop_first().len() implies ((#[trigger] events.drop_first()[i])
            matches Event::GcStarted { reason } && reason != GcReason::Induced)
            || events.drop_first()[i] is GcFinished by {
            assert(events.drop_first()[i] == events[i + 1]);
        }
        lemma_non_induced_collections_ignored(s, events.drop_first());
    }
}

/// Detachment is requested at least once in any run in which the watchdog
/// fires, whatever state the session started in and whatever else failed or
/// happened around it.
pub proof fn lemma_watchdog_requests_detach(s: SessionView, events: Seq<Event>)
    requires
        exists|i: int| 0 <= i < events.len() && (#[trigger] events[i]) is WatchdogFired,
    ensures
        run_actions(s, events).contains(HostAction::RequestDetach(DETACH_GRACE_MS)),
    decreases events.len(),
{
    let i = choose|i: int| 0 <= i < events.len() && (#[trigger] events[i]) is WatchdogFired;
    let head = step_actions(s, events.first());
    let tail = run_actions(step(s, events.first()), events.drop_first());
    assert(run_actions(s, events) == head + tail);
    if i == 0 {
        assert(head == seq![HostAction::RequestDetach(DETACH_GRACE_MS)]);
        assert((head + tail)[0] == HostAction::RequestDetach(DETACH_GRACE_MS));
    } else {
        assert(events.drop_first()[i - 1] == events[i]);
        lemma_watchdog_requests_detach(step(s, events.first()), events.drop_first());
        let j = choose|j: int|
            0 <= j < tail.len() && tail[j] == HostAction::RequestDetach(DETACH_GRACE_MS);
        assert((head + tail)[head.len() + j] == HostAction::RequestDetach(DETACH_GRACE_MS));
    }
}

/// The resolved type identity is write-once: once the cache holds an
/// identifier, no later event changes it. Later matching candidates are
/// therefore filtered by the cached identifier, and type identity resolution
/// happens at most once per session.
pub proof fn lemma_identity_write_once(s: SessionView, events: Seq<Event>, id: usize)
    requires
        s.string_class_id == Some(id),
    ensures
        run_state(s, events).string_class_id == Some(id),
    decreases events.len(),
{
    if events.len() > 0 {
        let s2 = step(s, events.first());
        assert(s2.string_class_id == Some(id));
        lemma_identity_write_once(s2, events.drop_first(), id);
    }
}

} // verus!

