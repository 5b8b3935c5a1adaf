//! Aggregation, ranking and report rendering.

use duplicated_strings_profiler::counts::CountsMap;
use duplicated_strings_profiler::ranking::rank;
use duplicated_strings_profiler::report::{render_line, render_report, u64_to_string};
use duplicated_strings_profiler::session::{DuplicatedStringsProfiler, GcReason};
use std::collections::HashMap;

fn extracted(tags: &[&str]) -> Vec<Option<String>> {
    tags.iter().map(|t| Some((*t).to_owned())).collect()
}

fn as_plain_map(m: &CountsMap) -> HashMap<String, u64> {
    let mut out = HashMap::new();
    for i in 0..m.len() {
        let (k, c) = m.entry(i);
        out.insert(k, c);
    }
    out
}

#[test]
fn aggregation_counts_occurrences() {
    let m = CountsMap::from_extracted(&extracted(&["A", "B", "A", "C", "A", "B"]));
    assert_eq!(m.len(), 3);
    // Keys stand in order of first occurrence.
    assert_eq!(m.entry(0), ("A".to_owned(), 3));
    assert_eq!(m.entry(1), ("B".to_owned(), 2));
    assert_eq!(m.entry(2), ("C".to_owned(), 1));
}

#[test]
fn aggregation_skips_failed_extractions() {
    let values = vec![
        Some("A".to_owned()),
        None,
        Some("A".to_owned()),
        None,
        Some("B".to_owned()),
    ];
    let m = CountsMap::from_extracted(&values);
    assert_eq!(m.len(), 2);
    assert_eq!(m.entry(0), ("A".to_owned(), 2));
    assert_eq!(m.entry(1), ("B".to_owned(), 1));
}

#[test]
fn aggregation_is_order_independent() {
    let m1 = CountsMap::from_extracted(&extracted(&["A", "B", "A", "C", "A", "B"]));
    let m2 = CountsMap::from_extracted(&extracted(&["C", "A", "B", "B", "A", "A"]));
    // As mappings the two aggregates agree, whatever order the buffer held
    // the values in.
    assert_eq!(as_plain_map(&m1), as_plain_map(&m2));
}

#[test]
fn ranking_orders_by_count_descending() {
    // An input whose mapping order disagrees with the count order: a sort
    // that handed its input back unchanged would fail here.
    let m = CountsMap::from_extracted(&extracted(&["B", "A", "A", "C", "A", "C"]));
    let ranked = rank(&m);
    let pairs: Vec<(String, u64)> = ranked;
    assert_eq!(
        pairs,
        vec![
            ("A".to_owned(), 3),
            ("C".to_owned(), 2),
            ("B".to_owned(), 1)
        ]
    );
}

#[test]
fn ranking_is_stable_under_count_ties() {
    // B and C tie; so do D and E. Ties keep mapping order, and re-running
    // ranking yields the same sequence.
    let m = CountsMap::from_extracted(&extracted(&["B", "C", "B", "C", "D", "E", "A", "A", "A"]));
    let first = rank(&m);
    let second = rank(&m);
    assert_eq!(first, second);
    assert_eq!(
        first,
        vec![
            ("A".to_owned(), 3),
            ("B".to_owned(), 2),
            ("C".to_owned(), 2),
            ("D".to_owned(), 1),
            ("E".to_owned(), 1)
        ]
    );
}

#[test]
fn decimal_rendering_is_exact() {
    assert_eq!(u64_to_string(0), "0");
    assert_eq!(u64_to_string(7), "7");
    assert_eq!(u64_to_string(10), "10");
    assert_eq!(u64_to_string(100), "100");
    assert_eq!(u64_to_string(12345), "12345");
    assert_eq!(u64_to_string(u64::MAX), "18446744073709551615");
}

#[test]
fn report_lines_are_formatted_exactly() {
    assert_eq!(render_line(&"A".to_owned(), 3), "- #(3) \"A\"");
    assert_eq!(render_line(&"".to_owned(), 0), "- #(0) \"\"");
    assert_eq!(
        render_line(&"hello world".to_owned(), 42),
        "- #(42) \"hello world\""
    );
}

#[test]
fn report_is_truncated_to_the_configured_maximum() {
    let m = CountsMap::from_extracted(&extracted(&["A", "A", "B", "C", "D"]));
    let ranked = rank(&m);
    let lines = render_report(&ranked, 2);
    assert_eq!(
        lines,
        vec![
            "# Duplicate strings Report".to_owned(),
            "- #(2) \"A\"".to_owned(),
            "- #(1) \"B\"".to_owned()
        ]
    );
}

#[test]
fn empty_counts_render_a_title_only() {
    let m = CountsMap::new();
    let ranked = rank(&m);
    let lines = render_report(&ranked, 100);
    assert_eq!(lines, vec!["# Duplicate strings Report".to_owned()]);
}

#[test]
fn end_to_end_duplicate_strings_report() {
    // Buffer [A, B, A, C, A, B] under a descriptor that maps each handle to
    // its literal tag.
    let tag_of_handle = |h: usize| -> Option<String> {
        match h {
            1 => Some("A".to_owned()),
            2 => Some("B".to_owned()),
            3 => Some("C".to_owned()),
            _ => None,
        }
    };
    let mut p = DuplicatedStringsProfiler::default();
    p.on_attach();
    p.on_attach_complete();
    p.on_gc_started(GcReason::Induced);
    let string_class = 7usize;
    for handle in [1usize, 2, 1, 3, 1, 2] {
        if p.on_object_reference(handle, string_class)
            == duplicated_strings_profiler::session::RefOutcome::NeedTypeName
        {
            p.on_object_reference_named(handle, string_class, Some("System.String"));
        }
    }
    p.on_gc_finished();
    let values: Vec<Option<String>> = p
        .captured_handles()
        .into_iter()
        .map(tag_of_handle)
        .collect();
    p.finalize(&values);
    p.request_detach();
    p.on_detach_succeeded();
    let ranked = rank(p.counts());
    let lines = render_report(&ranked, p.max_report_entries());
    assert_eq!(
        lines,
        vec![
            "# Duplicate strings Report".to_owned(),
            "- #(3) \"A\"".to_owned(),
            "- #(2) \"B\"".to_owned(),
            "- #(1) \"C\"".to_owned()
        ]
    );
}
