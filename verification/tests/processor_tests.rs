use novel_fetcher::governor::Governor;
use novel_fetcher::list_parser::ListParser;
use novel_fetcher::processor::{assemble_unit, concat_chunks, derive_title};
use novel_fetcher::source::{FetchError, SourceDescriptor, UrlDriller};
use novel_fetcher::text::{contains, first_line, replace, starts_with, trim};

#[test]
fn write_order_is_source_order() {
    // sources [A, B, C]: the sink receives A, separator, B, separator, C,
    // each part preceded by the two-blank-line separator
    let parts = vec!["A".to_string(), "B".to_string(), "C".to_string()];
    assert_eq!(assemble_unit(&parts), "\n\nA\n\nB\n\nC");
}

#[test]
fn single_source_assembly() {
    let parts = vec!["Hello\nWorld".to_string()];
    assert_eq!(assemble_unit(&parts), "\n\nHello\nWorld");
}

#[test]
fn one_unit_failure_leaves_sibling_unit_output_intact() {
    // two units; the first one's source is refused before any network
    // call, the second is still assembled correctly
    let ls = vec![
        "http://nowhere.invalid/a".to_string(),
        "--- Broken".to_string(),
        "http://cool18.com/b".to_string(),
        "--- Fine".to_string(),
    ];
    let mut p = ListParser::new(ls);

    let broken = p.next_novel_with("D1").expect("first unit");
    let url = match &broken.sources[0] {
        SourceDescriptor::Remote(u) => u.clone(),
        other => panic!("expected remote, got {:?}", other),
    };
    let plan = UrlDriller::new(url).fetch_plan();
    assert_eq!(plan.err(), Some(FetchError::UnknownUrl));

    let fine = p.next_novel_with("D2").expect("second unit");
    assert_eq!(fine.name, "Fine");
    let parts = vec!["content of b".to_string()];
    assert_eq!(assemble_unit(&parts), "\n\ncontent of b");
}

#[test]
fn governor_bounds_concurrent_tokens() {
    // more simultaneous requests than capacity: the excess must wait
    let mut g = Governor::new(2);
    assert!(g.try_acquire());
    assert!(g.held <= g.capacity);
    assert!(g.try_acquire());
    assert!(g.held <= g.capacity);
    assert!(!g.try_acquire(), "third requester must suspend");
    assert_eq!(g.held, 2);
    g.release();
    assert!(g.try_acquire(), "a release frees the waiting requester");
    assert_eq!(g.held, 2);
    assert!(g.held <= g.capacity);
}

#[test]
fn title_comes_from_first_nonempty_line() {
    assert_eq!(derive_title("  \n  My Great Novel  \nchapter 1\n"), Some("My Great Novel".to_string()));
    assert_eq!(derive_title("one line only"), Some("one line only".to_string()));
    assert_eq!(derive_title("   \n\t\n"), None);
    assert_eq!(derive_title(""), None);
}

#[test]
fn chunked_read_reassembles_in_order() {
    let chunks = vec![vec![1u8, 2], vec![3], vec![], vec![4, 5]];
    let content = concat_chunks(&chunks);
    assert_eq!(content, vec![1u8, 2, 3, 4, 5]);
    assert_eq!(content.len(), 5);
}

#[test]
fn text_utilities_behave() {
    assert_eq!(trim("  a b\t"), "a b");
    assert_eq!(trim(""), "");
    assert_eq!(trim(" \t\r\n"), "");
    assert_eq!(trim("\u{00A0}a\u{3000}"), "a");
    assert_eq!(trim("\u{2003}\u{2028}"), "");
    assert!(starts_with("http://x", "http"));
    assert!(!starts_with("htt", "http"));
    assert!(contains("https://mirror.chromaso.net/t", "chromaso.net"));
    assert!(!contains("https://example.com", "chromaso.net"));
    assert!(contains("abc", ""));
    assert_eq!(replace("abcabc", "bc", "X"), "aXaX");
    assert_eq!(replace("aaa", "aa", "b"), "ba");
    assert_eq!(first_line("one\ntwo"), "one");
    assert_eq!(first_line("no break"), "no break");
    assert_eq!(first_line("\nstarts empty"), "");
}
