use commr::find::{matches_filters, EntryInfo, EntryType};
use commr::fortune::{matching_fortunes, pick_fortune, read_fortunes, Fortune, FortuneFile};
use commr::grep::find_lines;
use commr::pattern::Pattern;

fn s(x: &str) -> String {
    x.to_string()
}

fn strings(xs: &[&str]) -> Vec<String> {
    xs.iter().map(|x| x.to_string()).collect()
}

#[test]
fn test_pick_fortune() {
    // Create a slice of fortunes
    let fortunes = &[
        Fortune {
            source: "fortunes".to_string(),
            text: "You cannot achieve the impossible without \
                   attempting the absurd."
                .to_string(),
        },
        Fortune {
            source: "fortunes".to_string(),
            text: "Assumption is the mother of all screw-ups.".to_string(),
        },
        Fortune {
            source: "fortunes".to_string(),
            text: "Neckties strangle clear thinking.".to_string(),
        },
    ];

    // Pick a fortune with a seed
    assert_eq!(
        pick_fortune(fortunes, Some(1)).unwrap(),
        "Neckties strangle clear thinking.".to_string()
    );
}

#[test]
fn pick_fortune_empty_is_none() {
    let fortunes: Vec<Fortune> = Vec::new();
    assert!(pick_fortune(&fortunes, Some(7)).is_none());
}

#[test]
fn test_find_lines() {
    let lines = strings(&["Lorem\n", "Ipsum\r\n", "DOLOR"]);

    // The pattern _or_ should match the one line, "Lorem"
    let re1 = Pattern::new("or", false).unwrap();
    let matches = find_lines(&lines, &re1, false);
    assert_eq!(matches.len(), 1);

    // When inverted, the function should match the other two lines
    let matches = find_lines(&lines, &re1, true);
    assert_eq!(matches.len(), 2);

    // This pattern will be case-insensitive
    let re2 = Pattern::new("or", true).unwrap();

    // The two lines "Lorem" and "DOLOR" should match
    let matches = find_lines(&lines, &re2, false);
    assert_eq!(matches.len(), 2);

    // When inverted, the remaining line should match
    let matches = find_lines(&lines, &re2, true);
    assert_eq!(matches.len(), 1);
}

#[test]
fn find_lines_keeps_order_and_text() {
    let lines = strings(&["alpha", "beta", "gamma"]);
    let re = Pattern::new("a$", false).unwrap();
    let matches = find_lines(&lines, &re, false);
    assert_eq!(matches, strings(&["alpha", "beta", "gamma"]));
    let re = Pattern::new("^g", false).unwrap();
    let matches = find_lines(&lines, &re, false);
    assert_eq!(matches, strings(&["gamma"]));
}

#[test]
fn invalid_pattern_is_rejected() {
    assert!(Pattern::new("*", false).is_none());
    assert!(Pattern::new("(unclosed", true).is_none());
}

#[test]
fn read_fortunes_cuts_on_percent() {
    let files = vec![FortuneFile {
        name: s("jokes"),
        lines: strings(&["first line", "second line", "%", "another", "%", "dangling"]),
    }];
    let fortunes = read_fortunes(&files);
    assert_eq!(fortunes.len(), 2);
    assert_eq!(fortunes[0].source, "jokes");
    assert_eq!(fortunes[0].text, "first line\nsecond line");
    assert_eq!(fortunes[1].source, "jokes");
    assert_eq!(fortunes[1].text, "another");
}

#[test]
fn read_fortunes_skips_empty_blocks_and_carries_buffer() {
    let files = vec![
        FortuneFile { name: s("one"), lines: strings(&["%", "%", "tail of one"]) },
        FortuneFile { name: s("two"), lines: strings(&["head of two", "%"]) },
    ];
    let fortunes = read_fortunes(&files);
    // The two empty blocks yield nothing; the unterminated tail of the
    // first file joins the second file's first block and is attributed
    // to the second file.
    assert_eq!(fortunes.len(), 1);
    assert_eq!(fortunes[0].source, "two");
    assert_eq!(fortunes[0].text, "tail of one\nhead of two");
}

#[test]
fn matching_fortunes_filters_by_text() {
    let fortunes = vec![
        Fortune { source: s("quotes"), text: s("Time flies like an arrow.") },
        Fortune { source: s("quotes"), text: s("Fruit flies like a banana.") },
        Fortune { source: s("jokes"), text: s("A horse walks into a bar.") },
    ];
    let pattern = Pattern::new("flies", false).unwrap();
    let hits = matching_fortunes(&fortunes, &pattern);
    assert_eq!(hits.len(), 2);
    assert_eq!(hits[0].text, "Time flies like an arrow.");
    assert_eq!(hits[1].text, "Fruit flies like a banana.");
    let pattern = Pattern::new("^a horse", true).unwrap();
    let hits = matching_fortunes(&fortunes, &pattern);
    assert_eq!(hits.len(), 1);
    assert_eq!(hits[0].source, "jokes");
}

#[test]
fn entry_filters() {
    let file_entry =
        EntryInfo { is_dir: false, is_file: true, is_link: false, name: s("notes.txt") };
    let dir_entry = EntryInfo { is_dir: true, is_file: false, is_link: false, name: s("src") };

    // Empty filter lists select everything.
    let no_types: Vec<EntryType> = Vec::new();
    let no_names: Vec<Pattern> = Vec::new();
    assert!(matches_filters(&file_entry, &no_types, &no_names));
    assert!(matches_filters(&dir_entry, &no_types, &no_names));

    // A type filter selects by entry kind.
    let only_dirs = vec![EntryType::Dir];
    assert!(!matches_filters(&file_entry, &only_dirs, &no_names));
    assert!(matches_filters(&dir_entry, &only_dirs, &no_names));

    // A name filter selects by pattern match on the file name.
    let txt = vec![Pattern::new("\\.txt$", false).unwrap()];
    assert!(matches_filters(&file_entry, &no_types, &txt));
    assert!(!matches_filters(&dir_entry, &no_types, &txt));

    // Both lists must agree.
    let files_and_links = vec![EntryType::File, EntryType::Link];
    assert!(matches_filters(&file_entry, &files_and_links, &txt));
    assert!(!matches_filters(&dir_entry, &files_and_links, &txt));
}
