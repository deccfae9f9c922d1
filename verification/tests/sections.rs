use logstream::sections::{IndexSection, SectionTracker, sections_valid};

#[test]
fn test_section_tracker() {
    let sections = vec![
        IndexSection {
            first_line: 0,
            last_line: 2,
        },
        IndexSection {
            first_line: 3,
            last_line: 3,
        },
        IndexSection {
            first_line: 4,
            last_line: 4,
        },
    ];
    let mut section_tracker = SectionTracker::new(sections);
    assert!(section_tracker.inside()); // 0
    assert_eq!(section_tracker.current_index(), 0);
    section_tracker.advance();
    assert!(section_tracker.inside()); // 1
    assert_eq!(section_tracker.current_index(), 1);
    section_tracker.advance();
    assert!(section_tracker.inside()); // 2
    section_tracker.advance();
    assert!(section_tracker.inside()); // 3
    section_tracker.advance();
    assert!(section_tracker.inside()); // 4
    section_tracker.advance();
    assert!(!section_tracker.inside()); // 5
}

#[test]
fn test_sections_valid_valid_single_section() {
    let sections = vec![IndexSection {
        first_line: 0,
        last_line: 2,
    }];
    assert!(sections_valid(&sections));
}

#[test]
fn test_sections_valid_validity_valid_sections_no_gap() {
    let sections = vec![
        IndexSection {
            first_line: 0,
            last_line: 2,
        },
        IndexSection {
            first_line: 3,
            last_line: 4,
        },
    ];
    assert!(sections_valid(&sections));
}

#[test]
fn test_sections_valid_invalidity_valid_single_section() {
    let sections = vec![IndexSection {
        first_line: 2,
        last_line: 1,
    }];
    assert!(!sections_valid(&sections));
}

#[test]
fn test_sections_valid_empty_sections() {
    let sections = vec![];
    assert!(sections_valid(&sections));
}

#[test]
fn test_sections_valid_invalidity_overlapping() {
    let sections = vec![
        IndexSection {
            first_line: 1,
            last_line: 4,
        },
        IndexSection {
            first_line: 9,
            last_line: 11,
        },
        IndexSection {
            first_line: 11,
            last_line: 15,
        },
    ];
    assert!(!sections_valid(&sections));
}

#[test]
fn tracker_reports_outside_after_sections_exhausted() {
    let sections = vec![IndexSection {
        first_line: 0,
        last_line: 1,
    }];
    let mut tracker = SectionTracker::new(sections);
    assert!(tracker.inside()); // 0
    tracker.advance();
    assert!(tracker.inside()); // 1
    for expected in 2..20usize {
        tracker.advance();
        assert!(!tracker.inside());
        assert_eq!(tracker.current_index(), expected);
    }
}

#[test]
fn tracker_matches_section_membership_at_every_index() {
    let sections = vec![
        IndexSection {
            first_line: 1,
            last_line: 2,
        },
        IndexSection {
            first_line: 5,
            last_line: 5,
        },
        IndexSection {
            first_line: 8,
            last_line: 10,
        },
    ];
    let inside_of = |i: usize| (1..=2).contains(&i) || i == 5 || (8..=10).contains(&i);
    let mut tracker = SectionTracker::new(sections);
    for i in 0..15usize {
        assert_eq!(tracker.inside(), inside_of(i), "at index {i}");
        tracker.advance();
    }
}

#[test]
fn tracker_handles_gap_between_sections() {
    let sections = vec![
        IndexSection {
            first_line: 0,
            last_line: 0,
        },
        IndexSection {
            first_line: 3,
            last_line: 3,
        },
    ];
    let mut tracker = SectionTracker::new(sections);
    assert!(tracker.inside()); // 0
    tracker.advance();
    assert!(!tracker.inside()); // 1
    tracker.advance();
    assert!(!tracker.inside()); // 2
    tracker.advance();
    assert!(tracker.inside()); // 3
    tracker.advance();
    assert!(!tracker.inside()); // 4
}

#[test]
fn sections_touching_rejected_but_adjacent_accepted() {
    let touching = vec![
        IndexSection {
            first_line: 0,
            last_line: 3,
        },
        IndexSection {
            first_line: 3,
            last_line: 5,
        },
    ];
    assert!(!sections_valid(&touching));
    let adjacent = vec![
        IndexSection {
            first_line: 0,
            last_line: 2,
        },
        IndexSection {
            first_line: 3,
            last_line: 5,
        },
    ];
    assert!(sections_valid(&adjacent));
}
