//! The session lifecycle: arming, the induced-collection filter, capture,
//! the type identity cache, and the detachment guarantees.

use duplicated_strings_profiler::session::{
    DuplicatedStringsProfiler, GcReason, HostAction, Phase, RefOutcome, DETACH_GRACE_MS,
    WATCHDOG_BOUND_SECS,
};

/// Drive one object-reference notification the way the notification adapter
/// would: resolve the type name only when the controller asks for it, and
/// count how often it asks.
fn deliver_ref(
    p: &mut DuplicatedStringsProfiler,
    object_id: usize,
    class_id: usize,
    name_of_class: &dyn Fn(usize) -> Option<String>,
    resolutions: &mut usize,
) -> RefOutcome {
    let outcome = p.on_object_reference(object_id, class_id);
    if outcome == RefOutcome::NeedTypeName {
        *resolutions += 1;
        let name = name_of_class(class_id);
        p.on_object_reference_named(object_id, class_id, name.as_deref())
    } else {
        outcome
    }
}

fn string_class_namer(string_class: usize) -> impl Fn(usize) -> Option<String> {
    move |class_id: usize| {
        if class_id == string_class {
            Some("System.String".to_owned())
        } else {
            Some("System.Object".to_owned())
        }
    }
}

#[test]
fn fresh_session_starts_disarmed() {
    let p = DuplicatedStringsProfiler::default();
    assert_eq!(p.phase(), Phase::Initialized);
    assert_eq!(p.max_report_entries(), 100);
    assert_eq!(p.captured_handles().len(), 0);
    assert_eq!(p.counts().len(), 0);
}

#[test]
fn metadata_names_the_agent() {
    let m = DuplicatedStringsProfiler::get_info();
    assert_eq!(m.uuid, "bdaba522-104c-4343-8952-036bed81527d");
    assert_eq!(m.name, "Duplicated Strings");
    assert_eq!(
        m.description,
        "For now, just duplicated strings and their occurence"
    );
    assert!(m.is_released);
}

#[test]
fn attach_arms_and_subscribes() {
    let mut p = DuplicatedStringsProfiler::default();
    let acts = p.on_attach();
    assert_eq!(p.phase(), Phase::Armed);
    assert_eq!(acts, vec![HostAction::SubscribeGcEvents]);
    let acts = p.on_attach_complete();
    assert_eq!(
        acts,
        vec![
            HostAction::ForceCollection,
            HostAction::StartWatchdog(WATCHDOG_BOUND_SECS)
        ]
    );
    assert_eq!(WATCHDOG_BOUND_SECS, 360);
}

#[test]
fn references_while_disabled_leave_buffer_empty() {
    let mut p = DuplicatedStringsProfiler::default();
    p.on_attach();
    let namer = string_class_namer(7);
    let mut resolutions = 0usize;
    for object_id in 0..20usize {
        let outcome = deliver_ref(&mut p, object_id, 7, &namer, &mut resolutions);
        assert_eq!(outcome, RefOutcome::Ignored);
    }
    assert_eq!(p.captured_handles().len(), 0);
    assert_eq!(resolutions, 0);
    assert_eq!(p.phase(), Phase::Armed);
}

#[test]
fn non_induced_collections_never_leave_armed() {
    let mut p = DuplicatedStringsProfiler::default();
    p.on_attach();
    for _ in 0..5 {
        p.on_gc_started(GcReason::Other);
        assert_eq!(p.phase(), Phase::Armed);
        let acts = p.on_gc_finished();
        assert_eq!(p.phase(), Phase::Armed);
        assert!(acts.is_empty());
    }
    assert_eq!(p.captured_handles().len(), 0);
}

#[test]
fn induced_collection_enables_capture() {
    let mut p = DuplicatedStringsProfiler::default();
    p.on_attach();
    p.on_gc_started(GcReason::Induced);
    assert_eq!(p.phase(), Phase::Collecting);
    let namer = string_class_namer(7);
    let mut resolutions = 0usize;
    assert_eq!(
        deliver_ref(&mut p, 101, 7, &namer, &mut resolutions),
        RefOutcome::Recorded
    );
    assert_eq!(
        deliver_ref(&mut p, 102, 9, &namer, &mut resolutions),
        RefOutcome::Ignored
    );
    assert_eq!(
        deliver_ref(&mut p, 103, 7, &namer, &mut resolutions),
        RefOutcome::Recorded
    );
    assert_eq!(p.captured_handles(), vec![101, 103]);
}

#[test]
fn first_matching_object_is_not_lost_to_resolution() {
    let mut p = DuplicatedStringsProfiler::default();
    p.on_attach();
    p.on_gc_started(GcReason::Induced);
    // The very first candidate is of the target type: resolving must record
    // that same candidate, not drop it.
    assert_eq!(p.on_object_reference(55, 7), RefOutcome::NeedTypeName);
    assert_eq!(
        p.on_object_reference_named(55, 7, Some("System.String")),
        RefOutcome::Recorded
    );
    assert_eq!(p.captured_handles(), vec![55]);
}

#[test]
fn type_identity_resolves_at_most_once() {
    let mut p = DuplicatedStringsProfiler::default();
    p.on_attach();
    p.on_gc_started(GcReason::Induced);
    let namer = string_class_namer(7);
    let mut resolutions = 0usize;
    for object_id in 0..10usize {
        let outcome = deliver_ref(&mut p, object_id, 7, &namer, &mut resolutions);
        assert_eq!(outcome, RefOutcome::Recorded);
    }
    // The first candidate resolved the identity; every later matching
    // candidate was compared against the cached identifier.
    assert_eq!(resolutions, 1);
    assert_eq!(p.captured_handles().len(), 10);
}

#[test]
fn failed_resolution_is_not_cached() {
    let mut p = DuplicatedStringsProfiler::default();
    p.on_attach();
    p.on_gc_started(GcReason::Induced);
    // Metadata resolution fails for this call: a non-match for it alone.
    assert_eq!(p.on_object_reference(1, 7), RefOutcome::NeedTypeName);
    assert_eq!(p.on_object_reference_named(1, 7, None), RefOutcome::Ignored);
    // The next candidate of the same class asks again and succeeds.
    assert_eq!(p.on_object_reference(2, 7), RefOutcome::NeedTypeName);
    assert_eq!(
        p.on_object_reference_named(2, 7, Some("System.String")),
        RefOutcome::Recorded
    );
    assert_eq!(p.captured_handles(), vec![2]);
}

#[test]
fn finish_freezes_the_buffer() {
    let mut p = DuplicatedStringsProfiler::default();
    p.on_attach();
    p.on_gc_started(GcReason::Induced);
    let namer = string_class_namer(7);
    let mut resolutions = 0usize;
    deliver_ref(&mut p, 1, 7, &namer, &mut resolutions);
    deliver_ref(&mut p, 2, 7, &namer, &mut resolutions);
    let acts = p.on_gc_finished();
    assert_eq!(p.phase(), Phase::Finalizing);
    assert_eq!(acts, vec![HostAction::Unsubscribe]);
    // Late notifications after the finished event must not be appended.
    for object_id in 10..20usize {
        let outcome = deliver_ref(&mut p, object_id, 7, &namer, &mut resolutions);
        assert_eq!(outcome, RefOutcome::Ignored);
    }
    assert_eq!(p.captured_handles(), vec![1, 2]);
}

#[test]
fn lifecycle_converges_on_detachment() {
    let mut p = DuplicatedStringsProfiler::default();
    p.on_attach();
    p.on_gc_started(GcReason::Induced);
    p.on_object_reference_named(1, 7, Some("System.String"));
    p.on_gc_finished();
    let extracted = vec![Some("A".to_owned())];
    p.finalize(&extracted);
    assert_eq!(p.phase(), Phase::ReportPending);
    assert_eq!(p.captured_handles().len(), 0);
    let acts = p.request_detach();
    assert_eq!(acts, vec![HostAction::RequestDetach(DETACH_GRACE_MS)]);
    assert_eq!(DETACH_GRACE_MS, 3000);
    assert_eq!(p.phase(), Phase::Detaching);
    p.on_detach_succeeded();
    assert_eq!(p.phase(), Phase::Done);
}

#[test]
fn aborted_finalization_still_requests_detach() {
    let mut p = DuplicatedStringsProfiler::default();
    p.on_attach();
    p.on_gc_started(GcReason::Induced);
    p.on_object_reference_named(1, 7, Some("System.String"));
    p.on_gc_finished();
    // No layout descriptor could be had: finalization is aborted, the
    // handles are released, and detachment is still requested.
    p.finalize_failed();
    assert_eq!(p.captured_handles().len(), 0);
    assert_eq!(p.counts().len(), 0);
    let acts = p.request_detach();
    assert_eq!(acts, vec![HostAction::RequestDetach(DETACH_GRACE_MS)]);
}

#[test]
fn watchdog_requests_detach_whatever_failed() {
    // Every other step failed: no subscription took effect, no collection
    // was observed, nothing was extracted. The watchdog still asks for
    // detachment, in any state.
    let p = DuplicatedStringsProfiler::default();
    assert_eq!(p.on_watchdog(), HostAction::RequestDetach(DETACH_GRACE_MS));
    let mut p = DuplicatedStringsProfiler::default();
    p.on_attach();
    p.on_gc_started(GcReason::Induced);
    p.on_gc_finished();
    assert_eq!(p.on_watchdog(), HostAction::RequestDetach(DETACH_GRACE_MS));
}
