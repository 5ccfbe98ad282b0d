use mdbook_toc::builder::build_toc;
use mdbook_toc::events::{EventKind, MdEvent};
use mdbook_toc::inject::add_toc;
use mdbook_toc::scan::{scan_headings, HeadingEntry};
use pulldown_cmark::Event;

#[test]
fn adds_toc() {
    let content = "# Chapter

<!-- toc -->

# Header 1

## Header 1.1

# Header 2

## Header 2.1

## Header 2.2

### Header 2.2.1

";

    let expected = "# Chapter

* [Header 1](#header-1)
  * [Header 1.1](#header-11)
* [Header 2](#header-2)
  * [Header 2.1](#header-21)
  * [Header 2.2](#header-22)

# Header 1

## Header 1.1

# Header 2

## Header 2.1

## Header 2.2

### Header 2.2.1";

    assert_eq!(expected, add_toc(content).unwrap());
}

#[test]
fn no_marker_is_idempotent() {
    let content = "# Title

Some paragraph text.

## Section

More text.
";
    let once = add_toc(content).unwrap();
    let twice = add_toc(&once).unwrap();
    assert_eq!(once, twice);
}

#[test]
fn marker_consumed_and_stable() {
    let content = "# Title

<!-- toc -->

# A

## B
";
    let once = add_toc(content).unwrap();
    assert!(!once.contains("<!-- toc -->"));
    let twice = add_toc(&once).unwrap();
    let thrice = add_toc(&twice).unwrap();
    assert_eq!(twice, thrice);
}

#[test]
fn deep_headings_filtered() {
    let content = "<!-- toc -->

### Deep

#### Deeper

###### Deepest
";
    let out = add_toc(content).unwrap();
    assert!(!out.contains("* ["));
    assert!(out.contains("### Deep"));
    assert!(out.contains("#### Deeper"));
    assert!(out.contains("###### Deepest"));
}

#[test]
fn duplicate_labels_share_slug() {
    let content = "<!-- toc -->

# Dup

# Dup
";
    let out = add_toc(content).unwrap();
    assert_eq!(2, out.matches("* [Dup](#dup)").count());
}

#[test]
fn headings_before_marker_are_ignored() {
    let content = "# Before

## Also before

<!-- toc -->

# After
";
    let out = add_toc(content).unwrap();
    assert!(out.contains("* [After](#after)"));
    assert!(!out.contains("* [Before]"));
    assert!(!out.contains("* [Also before]"));
}

#[test]
fn indentation_two_levels() {
    let entries = vec![
        HeadingEntry {
            level: 1,
            label: "A".to_string(),
        },
        HeadingEntry {
            level: 2,
            label: "B".to_string(),
        },
    ];
    assert_eq!("* [A](#a)\n  * [B](#b)\n", build_toc(&entries));
}

#[test]
fn build_toc_empty_input() {
    let entries: Vec<HeadingEntry> = Vec::new();
    assert_eq!("", build_toc(&entries));
}

#[test]
fn build_toc_normalizes_slugs() {
    let entries = vec![HeadingEntry {
        level: 1,
        label: "Header 1.1".to_string(),
    }];
    assert_eq!("* [Header 1.1](#header-11)\n", build_toc(&entries));
}

#[test]
fn scan_collects_only_after_marker() {
    let doc = vec![
        MdEvent {
            kind: EventKind::HeadingStart(1),
            raw: Event::Rule,
        },
        MdEvent {
            kind: EventKind::Text("Before".to_string()),
            raw: Event::Rule,
        },
        MdEvent {
            kind: EventKind::HeadingEnd,
            raw: Event::Rule,
        },
        MdEvent {
            kind: EventKind::Html("<!-- toc -->\n".to_string()),
            raw: Event::Rule,
        },
        MdEvent {
            kind: EventKind::HeadingStart(2),
            raw: Event::Rule,
        },
        MdEvent {
            kind: EventKind::Text("After".to_string()),
            raw: Event::Rule,
        },
        MdEvent {
            kind: EventKind::HeadingEnd,
            raw: Event::Rule,
        },
        MdEvent {
            kind: EventKind::HeadingStart(3),
            raw: Event::Rule,
        },
        MdEvent {
            kind: EventKind::Text("Too deep".to_string()),
            raw: Event::Rule,
        },
        MdEvent {
            kind: EventKind::HeadingEnd,
            raw: Event::Rule,
        },
    ];
    let entries = scan_headings(&doc);
    assert_eq!(1, entries.len());
    assert_eq!(2, entries[0].level);
    assert_eq!("After", entries[0].label);
}

#[test]
fn error_message_text() {
    let err = mdbook_toc::inject::TocError::Serialization("sink closed".to_string());
    assert_eq!("Markdown serialization failed: sink closed", err.message());
}
