use pagination_engine::ContinuationManager;
use pagination_engine::ElementStyle;
use pagination_engine::StyleMap;
use pagination_engine::Element;
use pagination_engine::ElementId;
use pagination_engine::ElementType;
use pagination_engine::LineCalculation;
use pagination_engine::LineCalculator;
use pagination_engine::PageConfig;

fn make_config() -> PageConfig {
    PageConfig::feature_film()
}

fn make_element(element_type: ElementType, content: &str) -> Element {
    Element {
        id: ElementId::new("test"),
        element_type,
        content: content.to_string(),
        character_name: None,
        dual_dialogue_position: None,
        force_page_break_after: false,
    }
}

fn make_dialogue(content: &str, character: &str) -> Element {
    Element {
        id: ElementId::new("test"),
        element_type: ElementType::Dialogue,
        content: content.to_string(),
        character_name: Some(character.to_string()),
        dual_dialogue_position: None,
        force_page_break_after: false,
    }
}

#[test]
fn test_scene_heading_single_line() {
    let config = make_config();
    let calc = LineCalculator::new(&config);

    let element = make_element(ElementType::SceneHeading, "INT. OFFICE - DAY");
    let result = calc.calculate(&element);

    assert_eq!(result.content_lines, 1);
    assert_eq!(result.wrapped_lines.len(), 1);
}

#[test]
fn test_action_wrapping() {
    let config = make_config();
    let calc = LineCalculator::new(&config);

    // Action has 60 chars per line
    let long_action = "A ".repeat(50); // 100 chars, should wrap to 2 lines
    let element = make_element(ElementType::Action, &long_action);
    let result = calc.calculate(&element);

    assert!(result.content_lines >= 2);
}

#[test]
fn test_dialogue_wrapping() {
    let config = make_config();
    let calc = LineCalculator::new(&config);

    // Dialogue has 35 chars per line
    let dialogue = "This is a test dialogue that should definitely wrap to multiple lines because it is quite long.";
    let element = make_element(ElementType::Dialogue, dialogue);
    let result = calc.calculate(&element);

    // 95 chars / 35 chars = ~3 lines
    assert!(result.content_lines >= 2);
    assert!(result.content_lines <= 4);
}

#[test]
fn test_empty_content() {
    let config = make_config();
    let calc = LineCalculator::new(&config);

    let element = make_element(ElementType::Action, "");
    let result = calc.calculate(&element);

    assert_eq!(result.content_lines, 0);
}

#[test]
fn test_multiline_content() {
    let config = make_config();
    let calc = LineCalculator::new(&config);

    let element = make_element(ElementType::Action, "Line one.\nLine two.\nLine three.");
    let result = calc.calculate(&element);

    assert_eq!(result.content_lines, 3);
}

#[test]
fn test_space_before() {
    let config = make_config();
    let calc = LineCalculator::new(&config);

    // Scene heading has space_before = 2
    let element = make_element(ElementType::SceneHeading, "INT. OFFICE - DAY");
    let result = calc.calculate(&element);

    assert_eq!(result.space_before, 2);
}

#[test]
fn test_long_word_breaking() {
    let config = make_config();
    let calc = LineCalculator::new(&config);

    // A word longer than any line
    let very_long_word = "A".repeat(100);
    let element = make_element(ElementType::Dialogue, &very_long_word);
    let result = calc.calculate(&element);

    // 100 chars / 35 chars per line = 3 lines
    assert!(result.content_lines >= 3);
}

#[test]
fn test_long_word_exact_chunks() {
    let config = make_config();
    let calc = LineCalculator::new(&config);

    // 100 chars at 35 per dialogue line: 35 + 35 + 30.
    let very_long_word = "A".repeat(100);
    let element = make_element(ElementType::Dialogue, &very_long_word);
    let result = calc.calculate(&element);

    assert_eq!(result.content_lines, 3);
    assert_eq!(result.wrapped_lines[0].len(), 35);
    assert_eq!(result.wrapped_lines[1].len(), 35);
    assert_eq!(result.wrapped_lines[2].len(), 30);
}

#[test]
fn test_greedy_wrap_exact() {
    let config = make_config();
    let calc = LineCalculator::new(&config);

    // Dialogue width is 35: "aaaa " repeated fills 7 words per line.
    let element = make_element(ElementType::Dialogue, "one two three four five six seven eight");
    let result = calc.calculate(&element);

    assert_eq!(result.wrapped_lines[0], "one two three four five six seven");
    assert_eq!(result.wrapped_lines[1], "eight");
    assert_eq!(result.content_lines, 2);
}

#[test]
fn test_calculate_with_spacing() {
    let config = make_config();
    let calc = LineCalculator::new(&config);

    let element = make_element(ElementType::SceneHeading, "INT. OFFICE - DAY");
    let at_start = calc.calculate_with_spacing(&element, true);
    let mid_page = calc.calculate_with_spacing(&element, false);

    assert_eq!(at_start.total_lines, 1);
    assert_eq!(mid_page.total_lines, 3);
}

#[test]
fn test_content_lines_query() {
    let config = make_config();
    let calc = LineCalculator::new(&config);

    let element = make_element(ElementType::Action, "Line one.\nLine two.");
    assert_eq!(calc.content_lines(&element), 2);
}

#[test]
fn test_split_dialogue_with_continuation() {
    let config = make_config();
    let mgr = ContinuationManager::new(&config);

    let element = make_dialogue("Line one. Line two. Line three.", "JOHN");

    let line_calc = LineCalculation {
        content_lines: 3,
        space_before: 0,
        space_after: 0,
        total_lines: 3,
        wrapped_lines: vec![
            "Line one.".to_string(),
            "Line two.".to_string(),
            "Line three.".to_string(),
        ],
    };

    let result = mgr.split_dialogue(&element, &line_calc, 2);

    assert_eq!(result.first_part_lines, 2);
    assert_eq!(result.second_part_lines, 1);
    assert_eq!(result.more_marker, Some("(MORE)".to_string()));
    assert_eq!(result.contd_prefix, Some("JOHN (CONT'D)".to_string()));
}

#[test]
fn test_split_with_empty_second_part() {
    let config = make_config();
    let mgr = ContinuationManager::new(&config);

    let element = make_dialogue("Short line", "JANE");

    let line_calc = LineCalculation {
        content_lines: 1,
        space_before: 0,
        space_after: 0,
        total_lines: 1,
        wrapped_lines: vec!["Short line".to_string()],
    };

    let result = mgr.split_dialogue(&element, &line_calc, 1);

    // No second part, so no continuation markers
    assert_eq!(result.second_part_lines, 0);
    assert!(result.more_marker.is_none());
    assert!(result.contd_prefix.is_none());
}

#[test]
fn test_split_dialogue_lowercase_name_uppercased() {
    let config = make_config();
    let mgr = ContinuationManager::new(&config);

    let element = make_dialogue("First line. Second line.", "mr. smith");

    let line_calc = LineCalculation {
        content_lines: 2,
        space_before: 0,
        space_after: 0,
        total_lines: 2,
        wrapped_lines: vec!["First line.".to_string(), "Second line.".to_string()],
    };

    let result = mgr.split_dialogue(&element, &line_calc, 1);
    assert_eq!(result.contd_prefix, Some("MR. SMITH (CONT'D)".to_string()));
}

#[test]
fn test_split_action_no_markers() {
    let config = make_config();
    let mgr = ContinuationManager::new(&config);

    let line_calc = LineCalculation {
        content_lines: 4,
        space_before: 1,
        space_after: 0,
        total_lines: 4,
        wrapped_lines: vec![
            "a".to_string(),
            "b".to_string(),
            "c".to_string(),
            "d".to_string(),
        ],
    };

    let result = mgr.split_action(&line_calc, 2);
    assert_eq!(result.first_part_lines, 2);
    assert_eq!(result.second_part_lines, 2);
    assert_eq!(result.first_part_content, vec!["a".to_string(), "b".to_string()]);
    assert_eq!(result.second_part_content, vec!["c".to_string(), "d".to_string()]);
    assert!(result.more_marker.is_none());
    assert!(result.contd_prefix.is_none());
}

#[test]
fn test_blank_interior_paragraph() {
    let config = make_config();
    let calc = LineCalculator::new(&config);

    // An empty paragraph between two others yields one empty line.
    let element = make_element(ElementType::Action, "First.\n\nThird.");
    let result = calc.calculate(&element);

    assert_eq!(result.content_lines, 3);
    assert_eq!(result.wrapped_lines[0], "First.");
    assert_eq!(result.wrapped_lines[1], "");
    assert_eq!(result.wrapped_lines[2], "Third.");
}

#[test]
fn test_whitespace_only_paragraph() {
    let config = make_config();
    let calc = LineCalculator::new(&config);

    let element = make_element(ElementType::Action, "   \t  ");
    let result = calc.calculate(&element);

    assert_eq!(result.content_lines, 1);
    assert_eq!(result.wrapped_lines[0], "");
}

#[test]
fn test_zero_width_style_returns_unwrapped() {
    let mut config = make_config();
    let mut degenerate = ElementStyle::default();
    degenerate.max_chars_per_line = 0;
    let mut styles = StyleMap::new();
    styles.set(ElementType::Action, degenerate);
    config.element_styles = styles;

    let calc = LineCalculator::new(&config);
    let element = make_element(ElementType::Action, "some content that is not wrapped at all");
    let result = calc.calculate(&element);

    assert_eq!(result.content_lines, 1);
    assert_eq!(result.wrapped_lines[0], "some content that is not wrapped at all");
}

#[test]
fn test_style_fallback_for_missing_type() {
    let mut config = make_config();
    config.element_styles = StyleMap::new();
    let style = config.style_for(ElementType::Dialogue);

    // The global fallback style.
    assert_eq!(style.max_chars_per_line, 60);
    assert_eq!(style.space_before, 1);
    assert!(style.can_split);
}

#[test]
fn test_continuation_accessors() {
    let config = make_config();
    let mgr = ContinuationManager::new(&config);
    assert!(mgr.is_enabled());
    assert_eq!(mgr.more_marker(), "(MORE)");
    assert_eq!(mgr.contd_marker(), "(CONT'D)");
}
