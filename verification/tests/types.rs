use pagination_engine::Element;
use pagination_engine::ElementType;
use pagination_engine::PageConfig;
use pagination_engine::PageIdentifier;
use pagination_engine::PaginationResult;
use pagination_engine::PaperSize;

#[test]
fn test_element_creation() {
    let element = Element::new("1", ElementType::SceneHeading, "INT. OFFICE - DAY");
    assert_eq!(element.id.0, "1");
    assert_eq!(element.element_type, ElementType::SceneHeading);
    assert_eq!(element.content, "INT. OFFICE - DAY");
}

#[test]
fn test_element_with_character() {
    let element = Element::new("2", ElementType::Dialogue, "Hello there!")
        .with_character_name("JOHN");
    assert_eq!(element.character_name, Some("JOHN".to_string()));
}

#[test]
fn test_page_identifier_display() {
    assert_eq!(PageIdentifier::Sequential(42).display(), "42");
    assert_eq!(
        PageIdentifier::Inserted { base: 47, suffix: 'A' }.display(),
        "47A"
    );
    assert_eq!(PageIdentifier::Omitted(10).display(), "10 OMITTED");
}

#[test]
fn test_page_identifier_next() {
    assert_eq!(
        PageIdentifier::Sequential(1).next(),
        PageIdentifier::Sequential(2)
    );
    assert_eq!(
        PageIdentifier::Inserted { base: 47, suffix: 'A' }.next(),
        PageIdentifier::Inserted { base: 47, suffix: 'B' }
    );
}

#[test]
fn test_page_identifier_sort_key() {
    let p1 = PageIdentifier::Sequential(47);
    let p2 = PageIdentifier::Inserted { base: 47, suffix: 'A' };
    let p3 = PageIdentifier::Inserted { base: 47, suffix: 'B' };
    let p4 = PageIdentifier::Sequential(48);

    assert!(p1.sort_key() < p2.sort_key());
    assert!(p2.sort_key() < p3.sort_key());
    assert!(p3.sort_key() < p4.sort_key());
}

#[test]
fn test_pagination_result_new() {
    let result = PaginationResult::new();
    assert_eq!(result.pages.len(), 0);
    assert_eq!(result.stats.page_count, 0);
}

#[test]
fn test_feature_film_config() {
    let config = PageConfig::feature_film();
    assert_eq!(config.lines_per_page, 55);
    assert_eq!(config.paper_size, PaperSize::UsLetter);
    assert!(config.element_styles.contains(ElementType::SceneHeading));
}

#[test]
fn test_feature_film_styles() {
    let config = PageConfig::feature_film();
    let heading = config.style_for(ElementType::SceneHeading);
    assert_eq!(heading.max_chars_per_line, 60);
    assert_eq!(heading.space_before, 2);
    assert!(heading.keep_with_next);
    assert!(!heading.can_split);
    let dialogue = config.style_for(ElementType::Dialogue);
    assert_eq!(dialogue.max_chars_per_line, 35);
    assert_eq!(dialogue.space_before, 0);
    assert!(dialogue.can_split);
    let transition = config.style_for(ElementType::Transition);
    assert_eq!(transition.max_chars_per_line, 20);
    assert_eq!(transition.space_after, 1);
}

#[test]
fn test_continuation_defaults() {
    let config = PageConfig::feature_film();
    assert_eq!(config.continuation_style.more_marker, "(MORE)");
    assert_eq!(config.continuation_style.contd_marker, "(CONT'D)");
    assert!(config.continuation_style.enabled);
    assert_eq!(config.orphan_control.dialogue_min_before_split, 2);
    assert_eq!(config.orphan_control.dialogue_min_after_split, 2);
}

#[test]
fn test_page_identifier_inserted_wraps_at_z() {
    assert_eq!(
        PageIdentifier::Inserted { base: 12, suffix: 'Z' }.next(),
        PageIdentifier::Sequential(13)
    );
    assert_eq!(PageIdentifier::Omitted(7).next(), PageIdentifier::Sequential(8));
}
