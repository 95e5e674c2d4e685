use pagination_engine::calculate_element_lines;
use pagination_engine::paginate;
use pagination_engine::Element;
use pagination_engine::ElementType;
use pagination_engine::PageConfig;
use pagination_engine::PageIdentifier;
use pagination_engine::WarningType;

fn make_element(id: &str, element_type: ElementType, content: &str) -> Element {
    Element::new(id, element_type, content)
}

fn make_dialogue(id: &str, content: &str, character: &str) -> Element {
    Element::new(id, ElementType::Dialogue, content).with_character_name(character)
}

/// Content that wraps to exactly `n` one-character lines.
fn lines_of(n: usize) -> String {
    let mut parts: Vec<String> = Vec::new();
    for _ in 0..n {
        parts.push("x".to_string());
    }
    parts.join("\n")
}

#[test]
fn test_basic_pagination() {
    let config = PageConfig::feature_film();
    let elements = vec![
        make_element("1", ElementType::SceneHeading, "INT. OFFICE - DAY"),
        make_element("2", ElementType::Action, "A busy office."),
        make_element("3", ElementType::Character, "SARAH"),
        make_dialogue("4", "Hello, is anyone there?", "SARAH"),
    ];

    let result = paginate(&elements, &config);

    assert_eq!(result.stats.page_count, 1);
    assert!(result.warnings.is_empty());
    assert_eq!(result.element_positions.len(), 4);
}

#[test]
fn test_page_break_element() {
    let config = PageConfig::feature_film();
    let elements = vec![
        make_element("1", ElementType::Action, "First page content."),
        make_element("2", ElementType::PageBreak, ""),
        make_element("3", ElementType::Action, "Second page content."),
    ];

    let result = paginate(&elements, &config);

    assert_eq!(result.stats.page_count, 2);
}

#[test]
fn test_scene_heading_orphan_prevention() {
    let config = PageConfig::feature_film();

    // Fill a page almost completely
    let long_action = "Action text. ".repeat(100);
    let elements = vec![
        make_element("1", ElementType::Action, &long_action),
        make_element("2", ElementType::SceneHeading, "INT. NEW LOCATION - NIGHT"),
        make_element("3", ElementType::Action, "New scene content."),
    ];

    let result = paginate(&elements, &config);

    // Scene heading should have content following it on same page
    let heading_pos = result.element_positions.get("2").unwrap();
    let action_pos = result.element_positions.get("3").unwrap();

    assert_eq!(heading_pos.pages[0], action_pos.pages[0]);
}

#[test]
fn test_determinism() {
    let config = PageConfig::feature_film();
    let elements: Vec<Element> = (0..50)
        .map(|i| make_element(&i.to_string(), ElementType::Action, "Some action text here."))
        .collect();

    let result1 = paginate(&elements, &config);
    let result2 = paginate(&elements, &config);

    assert_eq!(result1.stats.page_count, result2.stats.page_count);
    assert_eq!(result1.pages.len(), result2.pages.len());
}

#[test]
fn test_determinism_full_layout() {
    let config = PageConfig::feature_film();
    let mut elements: Vec<Element> = Vec::new();
    for i in 0..40 {
        elements.push(make_element(&format!("a{}", i), ElementType::Action, "Some action text."));
        elements.push(make_element(&format!("c{}", i), ElementType::Character, "BOB"));
        elements.push(make_dialogue(&format!("d{}", i), "A line of dialogue to place.", "BOB"));
    }

    let result1 = paginate(&elements, &config);
    let result2 = paginate(&elements, &config);

    assert_eq!(result1.pages.len(), result2.pages.len());
    for (p1, p2) in result1.pages.iter().zip(result2.pages.iter()) {
        assert_eq!(p1.identifier, p2.identifier);
        assert_eq!(p1.lines_used, p2.lines_used);
        assert_eq!(p1.bottom_continuation, p2.bottom_continuation);
        assert_eq!(p1.elements.len(), p2.elements.len());
        for (e1, e2) in p1.elements.iter().zip(p2.elements.iter()) {
            assert_eq!(e1.element_id.0, e2.element_id.0);
            assert_eq!(e1.start_line, e2.start_line);
            assert_eq!(e1.line_count, e2.line_count);
        }
    }
    assert_eq!(result1.stats.break_count, result2.stats.break_count);
    assert_eq!(result1.stats.continuation_count, result2.stats.continuation_count);
}

#[test]
fn test_empty_document() {
    let config = PageConfig::feature_film();
    let elements: Vec<Element> = vec![];

    let result = paginate(&elements, &config);

    assert_eq!(result.stats.page_count, 0);
    assert!(result.pages.is_empty());
    assert!(result.warnings.is_empty());
}

#[test]
fn test_timing_recorded() {
    let config = PageConfig::feature_film();
    let elements = vec![
        make_element("1", ElementType::Action, "Some content."),
    ];

    let result = paginate(&elements, &config);

    // Timing should be recorded (can't assert exact value)
    assert!(result.stats.timing_us < u64::MAX);
}

#[test]
fn test_calculate_element_lines() {
    let config = PageConfig::feature_film();
    let element = make_element("1", ElementType::Action, "A short action.");

    let lines = calculate_element_lines(&element, &config);
    assert_eq!(lines, 1);
}

#[test]
fn test_single_short_element() {
    let config = PageConfig::feature_film();
    let elements = vec![make_element("only", ElementType::Action, "One short line.")];

    let result = paginate(&elements, &config);

    assert_eq!(result.stats.page_count, 1);
    assert_eq!(result.pages[0].elements.len(), 1);
    assert_eq!(result.pages[0].elements[0].start_line, 1);
    assert_eq!(result.stats.break_count, 0);
    assert!(result.warnings.is_empty());
    let pos = result.element_positions.get("only").unwrap();
    assert!(!pos.is_split);
    assert_eq!(pos.pages.len(), 1);
    assert_eq!(pos.start_line, 1);
}

#[test]
fn test_exact_page_fill() {
    let config = PageConfig::feature_film();
    // 55 content lines of action: exactly one full page, no warning.
    let elements = vec![make_element("full", ElementType::Action, &lines_of(55))];

    let result = paginate(&elements, &config);

    assert_eq!(result.stats.page_count, 1);
    assert_eq!(result.pages[0].lines_used, 55);
    assert!(result.warnings.is_empty());
}

#[test]
fn test_element_exceeds_page_warning() {
    let config = PageConfig::feature_film();
    // 56 content lines cannot fit a 55-line page.
    let elements = vec![make_element("big", ElementType::SceneHeading, &lines_of(56))];

    let result = paginate(&elements, &config);

    assert_eq!(result.warnings.len(), 1);
    assert_eq!(result.warnings[0].warning_type, WarningType::ElementExceedsPage);
    assert_eq!(
        result.warnings[0].message,
        "Element requires 56 lines but page only has 55 lines"
    );
}

#[test]
fn test_dialogue_split_layout() {
    let config = PageConfig::feature_film();
    let elements = vec![
        make_element("fill", ElementType::Action, &lines_of(50)),
        make_dialogue("talk", &lines_of(10), "ALICE"),
    ];

    let result = paginate(&elements, &config);

    // Page 1: 50 action lines, then 4 dialogue lines, then the MORE line.
    assert_eq!(result.stats.page_count, 2);
    assert_eq!(result.pages[0].lines_used, 55);
    assert_eq!(result.pages[0].bottom_continuation, Some("(MORE)".to_string()));
    let first_half = result.pages[0].elements.last().unwrap();
    assert_eq!(first_half.element_id.0, "talk");
    assert_eq!(first_half.line_count, 4);
    assert_eq!(first_half.start_line, 51);
    assert!(!first_half.is_continuation);
    let range = first_half.line_range.unwrap();
    assert_eq!((range.start, range.end), (0, 4));

    // Page 2: the CONT'D prefix line, then the remaining 6 dialogue lines.
    let second_half = &result.pages[1].elements[0];
    assert_eq!(second_half.element_id.0, "talk");
    assert_eq!(second_half.line_count, 6);
    assert_eq!(second_half.start_line, 2);
    assert!(second_half.is_continuation);
    let range2 = second_half.line_range.unwrap();
    assert_eq!((range2.start, range2.end), (4, 10));
    assert_eq!(
        second_half.continuation_prefix,
        Some("ALICE (CONT'D)".to_string())
    );
    assert_eq!(result.pages[1].lines_used, 7);

    let pos = result.element_positions.get("talk").unwrap();
    assert!(pos.is_split);
    assert_eq!(pos.pages.len(), 2);
    assert_eq!(pos.pages[0], PageIdentifier::Sequential(1));
    assert_eq!(pos.pages[1], PageIdentifier::Sequential(2));
    assert_eq!(pos.start_line, 51);

    assert_eq!(result.stats.continuation_count, 1);
}

#[test]
fn test_action_split_no_marker() {
    let config = PageConfig::feature_film();
    let elements = vec![
        make_element("fill", ElementType::Action, &lines_of(50)),
        make_element("long", ElementType::Action, &lines_of(10)),
    ];

    let result = paginate(&elements, &config);

    // Action splits without continuation markers; space_before consumes one
    // line, leaving four for content.
    assert_eq!(result.stats.page_count, 2);
    assert!(result.pages[0].bottom_continuation.is_none());
    let first_half = result.pages[0].elements.last().unwrap();
    assert_eq!(first_half.element_id.0, "long");
    assert_eq!(first_half.line_count, 4);
    let second_half = &result.pages[1].elements[0];
    assert_eq!(second_half.line_count, 6);
    assert_eq!(second_half.start_line, 1);
    assert!(second_half.continuation_prefix.is_none());
    assert_eq!(result.stats.continuation_count, 0);
}

#[test]
fn test_force_page_break_after() {
    let config = PageConfig::feature_film();
    let elements = vec![
        make_element("1", ElementType::Action, "Before the break.").with_force_page_break(),
        make_element("2", ElementType::Action, "After the break."),
    ];

    let result = paginate(&elements, &config);

    assert_eq!(result.stats.page_count, 2);
    assert_eq!(
        result.element_positions.get("1").unwrap().pages[0],
        PageIdentifier::Sequential(1)
    );
    assert_eq!(
        result.element_positions.get("2").unwrap().pages[0],
        PageIdentifier::Sequential(2)
    );
}

#[test]
fn test_trailing_page_break_adds_no_page() {
    let config = PageConfig::feature_film();
    let with_break = vec![
        make_element("1", ElementType::Action, "Content."),
        make_element("2", ElementType::PageBreak, ""),
    ];
    let without_break = vec![make_element("1", ElementType::Action, "Content.")];

    let result_with = paginate(&with_break, &config);
    let result_without = paginate(&without_break, &config);

    // An empty trailing page is never emitted.
    assert_eq!(result_with.stats.page_count, 1);
    assert_eq!(result_without.stats.page_count, 1);
}

#[test]
fn test_leading_page_break_skipped() {
    let config = PageConfig::feature_film();
    let elements = vec![
        make_element("pb", ElementType::PageBreak, ""),
        make_element("1", ElementType::Action, "Content."),
    ];

    let result = paginate(&elements, &config);

    assert_eq!(result.stats.page_count, 1);
    assert!(result.element_positions.get("pb").is_none());
    assert_eq!(result.element_positions.len(), 1);
}

#[test]
fn test_get_page_for_element() {
    let config = PageConfig::feature_film();
    let elements = vec![make_element("a", ElementType::Action, "Content.")];

    let result = paginate(&elements, &config);

    assert_eq!(
        result.get_page_for_element("a"),
        Some(&PageIdentifier::Sequential(1))
    );
    assert_eq!(result.get_page_for_element("missing"), None);
}

#[test]
fn test_line_conservation_on_sample() {
    let config = PageConfig::feature_film();
    let mut elements: Vec<Element> = Vec::new();
    for i in 0..30 {
        elements.push(make_element(
            &format!("a{}", i),
            ElementType::Action,
            "Some action content that wraps across the monospace grid nicely.",
        ));
        elements.push(make_dialogue(&format!("d{}", i), &lines_of(7), "EVE"));
    }
    let result = paginate(&elements, &config);

    // Every content line of every element lands on exactly one page.
    let placed: usize = result
        .pages
        .iter()
        .map(|p| p.elements.iter().map(|e| e.line_count).sum::<usize>())
        .sum();
    let expected: usize = elements
        .iter()
        .map(|e| calculate_element_lines_content(&config, e))
        .sum();
    assert_eq!(placed, expected);

    // One bottom continuation per counted continuation.
    let marked = result
        .pages
        .iter()
        .filter(|p| p.bottom_continuation.is_some())
        .count();
    assert_eq!(marked, result.stats.continuation_count);
}

fn calculate_element_lines_content(config: &PageConfig, e: &Element) -> usize {
    let calc = pagination_engine::LineCalculator::new(config);
    calc.content_lines(e)
}

#[test]
fn test_duplicate_ids_keep_one_position() {
    let config = PageConfig::feature_film();
    let elements = vec![
        make_element("dup", ElementType::Action, "First occurrence."),
        make_element("dup", ElementType::Action, "Second occurrence."),
    ];

    let result = paginate(&elements, &config);

    // The position index has map semantics: the later element wins.
    assert_eq!(result.element_positions.len(), 1);
    assert_eq!(result.stats.element_count, 2);
}

#[test]
fn test_contd_prefix_uppercases_name() {
    let config = PageConfig::feature_film();
    let elements = vec![
        make_element("fill", ElementType::Action, &lines_of(50)),
        make_dialogue("talk", &lines_of(10), "bob jr."),
    ];

    let result = paginate(&elements, &config);

    let second_half = &result.pages[1].elements[0];
    assert_eq!(
        second_half.continuation_prefix,
        Some("BOB JR. (CONT'D)".to_string())
    );
}
