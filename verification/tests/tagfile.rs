use se621::tags::classify;
use se621::tags::parse_tags;
use se621::tags::trim;
use se621::tags::Line;
use se621::tags::Section;
use se621::tags::TagError;
use se621::tags::TagStore;

fn lines(text: &[&str]) -> Vec<String> {
    text.iter().map(|l| String::from(*l)).collect()
}

#[test]
fn tag_store_new_is_empty() {
    let s = TagStore::new();
    assert!(s.general.is_empty());
    assert!(s.pools.is_empty());
    assert!(s.single_posts.is_empty());
    assert!(s.is_empty());
}

#[test]
fn trim_removes_white_space_at_both_ends() {
    assert_eq!(trim("  wolf solo \t"), "wolf solo");
    assert_eq!(trim("wolf"), "wolf");
    assert_eq!(trim(""), "");
    assert_eq!(trim(" \t "), "");
    assert_eq!(trim("\u{3000}f\u{e9}lin\u{a0}"), "f\u{e9}lin");
    assert_eq!(trim("\u{200b}x"), "\u{200b}x");
}

#[test]
fn trim_agrees_with_std_on_every_white_space_character() {
    for n in 0..0x3100u32 {
        if let Some(c) = char::from_u32(n) {
            let text = format!("{}a{}", c, c);
            assert_eq!(trim(&text), text.trim());
        }
    }
}

#[test]
fn classify_sorts_lines() {
    assert_eq!(classify(""), Line::Skipped);
    assert_eq!(classify("# a comment"), Line::Skipped);
    assert_eq!(classify("[general]"), Line::Header(Section::General));
    assert_eq!(classify("[pools]"), Line::Header(Section::Pools));
    assert_eq!(classify("[single-post]"), Line::Header(Section::SinglePosts));
    assert_eq!(classify("[general] "), Line::Unknown);
    assert_eq!(classify("[other]"), Line::Unknown);
    assert_eq!(classify(" wolf "), Line::Entry(String::from("wolf")));
    assert_eq!(classify(" # no comment"), Line::Entry(String::from("# no comment")));
    assert_eq!(classify("   "), Line::Skipped);
    assert_eq!(classify("\t"), Line::Skipped);
    assert_eq!(classify("\u{3000} \u{a0}"), Line::Skipped);
}

#[test]
fn parse_tags_fills_three_sections() {
    let store = parse_tags(&lines(&[
        "# This file contains the tags",
        "early",
        "",
        "[general]",
        "wolf solo",
        "  fox ",
        "[pools]",
        "123",
        "[single-post]",
        "456",
        "789",
        "[general]",
        "late",
    ]))
    .unwrap();
    assert_eq!(store.general, vec!["early", "wolf solo", "fox", "late"]);
    assert_eq!(store.pools, vec!["123"]);
    assert_eq!(store.single_posts, vec!["456", "789"]);
    assert!(!store.is_empty());
}

#[test]
fn parse_tags_passes_over_blank_lines() {
    let store = parse_tags(&lines(&["[general]", "   ", "cat", "\t", "[pools]", " ", "7"])).unwrap();
    assert_eq!(store.general, vec!["cat"]);
    assert_eq!(store.pools, vec!["7"]);
    assert!(store.single_posts.is_empty());
}

#[test]
fn parse_tags_of_default_file_is_empty() {
    let store = parse_tags(&lines(&[
        "# This file contains the tags and pools the program will download",
        "# Lines begginning with # are comments",
        "# Insert tags you wish to download in the appropriate group",
        "",
        "[general]",
        "",
        "[pools]",
        "",
        "[single-post]",
        "",
    ]))
    .unwrap();
    assert!(store.is_empty());
}

#[test]
fn parse_tags_names_first_unknown_header() {
    assert_eq!(
        parse_tags(&lines(&["wolf", "[general]", "[pool]", "fox", "[singles]"])),
        Err(TagError::UnknownSection(2))
    );
}

#[test]
fn parse_tags_of_nothing() {
    assert_eq!(parse_tags(&Vec::new()), Ok(TagStore::new()));
}
