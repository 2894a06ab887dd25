use novel_fetcher::extract::ExtractError;
use novel_fetcher::source::{FetchError, FileDriller, UrlDriller};

#[test]
fn url_classification_by_domain_substring() {
    assert!(matches!(
        UrlDriller::new("https://www.cool18.com/bbs4/index.php?read=1".to_string()),
        UrlDriller::CoolUrlDriller(_)
    ));
    assert!(matches!(
        UrlDriller::new("https://s80m.com/book/1".to_string()),
        UrlDriller::RMUrlDriller(_)
    ));
    assert!(matches!(
        UrlDriller::new("https://mirror.chromaso.net/thread/52498?show=154344".to_string()),
        UrlDriller::MMirrorDriller(_)
    ));
    assert!(matches!(
        UrlDriller::new("https://example.com/page".to_string()),
        UrlDriller::UnknownDriller
    ));
}

#[test]
fn missing_show_marker_fails_before_any_network_call() {
    let d = UrlDriller::new("https://mirror.chromaso.net/thread/52498".to_string());
    assert_eq!(d.fetch_plan().unwrap_err(), FetchError::MissingShowMarker);
}

#[test]
fn show_marker_present_plans_fetch_with_referer() {
    let d = UrlDriller::new("https://mirror.chromaso.net/thread/52498?show=154344".to_string());
    let plan = d.fetch_plan().expect("plan");
    assert_eq!(plan.url, "https://mirror.chromaso.net/thread/52498?show=154344");
    assert_eq!(plan.referer.as_deref(), Some("https://mirror.chromaso.net/forum/"));
}

#[test]
fn unknown_domain_is_refused() {
    let d = UrlDriller::new("https://nowhere.invalid/x".to_string());
    assert_eq!(d.fetch_plan().unwrap_err(), FetchError::UnknownUrl);
}

#[test]
fn cool_plan_has_no_referer() {
    let d = UrlDriller::new("https://www.cool18.com/bbs4/index.php?read=1".to_string());
    let plan = d.fetch_plan().expect("plan");
    assert_eq!(plan.url, "https://www.cool18.com/bbs4/index.php?read=1");
    assert!(plan.referer.is_none());
}

#[test]
fn mirror_body_preparation_marks_br_tags() {
    let d = UrlDriller::new("https://mirror.chromaso.net/t/1?show=2".to_string());
    let prepared = d.prepare_body("a<br>b<br>c");
    assert_eq!(prepared, "a<br> MMirrorDrillerERTb<br> MMirrorDrillerERTc");
}

#[test]
fn cool_body_preparation_is_identity() {
    let d = UrlDriller::new("https://www.cool18.com/x".to_string());
    assert_eq!(d.prepare_body("a<br>b"), "a<br>b");
}

#[test]
fn cool_extraction_selects_marker_and_cleans_branding() {
    let d = UrlDriller::new("https://www.cool18.com/x".to_string());
    let html = "<html><body><div class=\"show_content\">Line one cool18.comLine two</div><div>noise</div></body></html>";
    let text = d.extract(html).expect("extracted");
    assert_eq!(text, "Line one\nLine two");
}

#[test]
fn cool_extraction_without_marker_fails() {
    let d = UrlDriller::new("https://www.cool18.com/x".to_string());
    let html = "<html><body><p>nothing here</p></body></html>";
    assert_eq!(d.extract(html).unwrap_err(), ExtractError::NoSelector);
}

#[test]
fn mirror_extraction_joins_posts_and_restores_breaks() {
    let d = UrlDriller::new("https://mirror.chromaso.net/t/1?show=2".to_string());
    let raw = "<html><body>\
        <div class=\"card mm-post\"><div class=\"card-body\">x<br>y</div></div>\
        <div class=\"card mm-post\"><div class=\"card-body\">z</div></div>\
        </body></html>";
    let prepared = d.prepare_body(raw);
    let text = d.extract(prepared.as_str()).expect("extracted");
    assert_eq!(text, "x \ny\nz");
}

#[test]
fn mirror_page_without_posts_fails() {
    let d = UrlDriller::new("https://mirror.chromaso.net/t/1?show=2".to_string());
    let html = "<html><body><div class=\"card\">not a post</div></body></html>";
    assert_eq!(d.extract(html).unwrap_err(), ExtractError::NoSelector);
}

#[test]
fn mirror_raw_body_parses_in_one_step() {
    let d = UrlDriller::new("https://mirror.chromaso.net/t/1?show=2".to_string());
    let raw = "<html><body>\
        <div class=\"card mm-post\"><div class=\"card-body\">first<br>break</div></div>\
        <div class=\"card mm-post\"><div class=\"card-body\">second</div></div>\
        </body></html>";
    let text = d.parse_fetched(raw).expect("parsed");
    assert_eq!(text, "first \nbreak\nsecond");
}

#[test]
fn file_driller_remembers_its_path() {
    let fd = FileDriller::new("/tmp/s1.txt");
    assert_eq!(fd.filename, "/tmp/s1.txt");
}
