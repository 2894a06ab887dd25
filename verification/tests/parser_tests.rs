use novel_fetcher::clock::is_timestamp_shaped;
use novel_fetcher::list_parser::ListParser;
use novel_fetcher::source::SourceDescriptor;

fn lines(ls: &[&str]) -> Vec<String> {
    ls.iter().map(|l| l.to_string()).collect()
}

#[test]
fn test_split() {
    let s = "file://werwerwerdsfdsf";
    match novel_fetcher::source::classify_source_line(s) {
        Some(SourceDescriptor::Local(p)) => {
            println!("{}", p);
            assert_eq!(p, "werwerwerdsfdsf");
        }
        other => panic!("expected a local source, got {:?}", other),
    }
}

#[test]
fn two_groups_yield_two_units() {
    // two delimiter-terminated non-empty groups: exactly two units, each
    // with its group's sources in original order
    let ls = lines(&[
        "// the first novel",
        "http://cool18.com/a",
        "",
        "file:///tmp/part2.txt",
        "--- First",
        "some stray text",
        "http://cool18.com/b",
        "---",
    ]);
    let mut p = ListParser::new(ls);

    let u1 = p.next_novel_with("D1").expect("first unit");
    assert_eq!(u1.name, "First");
    assert_eq!(u1.sources.len(), 2);
    match &u1.sources[0] {
        SourceDescriptor::Remote(u) => assert_eq!(u, "http://cool18.com/a"),
        other => panic!("expected remote, got {:?}", other),
    }
    match &u1.sources[1] {
        SourceDescriptor::Local(path) => assert_eq!(path, "/tmp/part2.txt"),
        other => panic!("expected local, got {:?}", other),
    }

    let u2 = p.next_novel_with("D2").expect("second unit");
    assert_eq!(u2.name, "D2");
    assert_eq!(u2.sources.len(), 1);
    match &u2.sources[0] {
        SourceDescriptor::Remote(u) => assert_eq!(u, "http://cool18.com/b"),
        other => panic!("expected remote, got {:?}", other),
    }

    assert!(p.next_novel_with("D3").is_none());
}

#[test]
fn empty_group_is_never_emitted() {
    // delimiters with no sources between them are no-ops
    let ls = lines(&["---", "--- SomeName", "// only a comment", "", "---"]);
    let mut p = ListParser::new(ls);
    assert!(p.next_novel_with("D1").is_none());
}

#[test]
fn unit_at_end_of_input_uses_default_name() {
    let ls = lines(&["http://cool18.com/only"]);
    let mut p = ListParser::new(ls);
    let u = p.next_novel_with("2001-01-01 00:00:00.000").expect("unit");
    assert_eq!(u.name, "2001-01-01 00:00:00.000");
    assert_eq!(u.sources.len(), 1);
    assert!(p.next_novel_with("later").is_none());
}

#[test]
fn explicit_rename_names_the_unit() {
    let ls = lines(&["http://cool18.com/a", "---   MyNovel  "]);
    let mut p = ListParser::new(ls);
    let u = p.next_novel_with("Default").expect("unit");
    assert_eq!(u.name, "MyNovel");
}

#[test]
fn empty_rename_preserves_default_name() {
    let ls = lines(&["http://cool18.com/a", "---   "]);
    let mut p = ListParser::new(ls);
    let u = p.next_novel_with("Default").expect("unit");
    assert_eq!(u.name, "Default");
}

#[test]
fn first_unit_without_rename_gets_timestamp_shaped_name() {
    let ls = lines(&["http://cool18.com/a"]);
    let mut p = ListParser::new(ls);
    let u = p.next_novel().expect("unit");
    let cs: Vec<char> = u.name.chars().collect();
    assert_eq!(cs.len(), 23, "name: {:?}", u.name);
    for (i, c) in cs.iter().enumerate() {
        match i {
            4 | 7 => assert_eq!(*c, '-', "name: {:?}", u.name),
            10 => assert_eq!(*c, ' ', "name: {:?}", u.name),
            13 | 16 => assert_eq!(*c, ':', "name: {:?}", u.name),
            19 => assert_eq!(*c, '.', "name: {:?}", u.name),
            _ => assert!(c.is_ascii_digit(), "name: {:?}", u.name),
        }
    }
}

#[test]
fn timestamp_shape_check_is_exact() {
    assert!(is_timestamp_shaped("1970-01-01 00:00:00.000"));
    assert!(is_timestamp_shaped("2024-12-31 23:59:59.999"));
    assert!(!is_timestamp_shaped("1970-01-01 00:00:00.00"));
    assert!(!is_timestamp_shaped("+10000-01-01 00:00:00.000"));
    assert!(!is_timestamp_shaped("1970:01-01 00:00:00.000"));
    assert!(!is_timestamp_shaped(""));
}

#[test]
fn unrecognized_lines_are_ignored() {
    let ls = lines(&["not a source", "ftp://elsewhere", "http://cool18.com/a", "---"]);
    let mut p = ListParser::new(ls);
    let u = p.next_novel_with("D").expect("unit");
    assert_eq!(u.sources.len(), 1);
}
