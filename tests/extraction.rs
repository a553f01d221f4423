use protowatch::{
    build_submission, ids_from_attrs, is_blacklisted, join_tags, parse_id, parse_proto_ids,
    parse_submission_text, same_folded, MalformedDetail, SubmissionData,
};

const DETAIL_PAGE: &str = r#"<html><body>
<div class="submission-id-sub-container">
  <div class="submission-title"><p>Sunset Walk</p></div>
  <a href="/user/painter/"><strong>painter</strong></a>
  <span class="popup_date" title="Oct 1, 2026 10:00 AM">a week ago</span>
</div>
<div class="download fullsize"><a href="//d.example.net/art/painter/sunset.png">Download</a></div>
<section class="tags-row">
  <span class="tags"><a href="/search/@keywords sfw">sfw</a></span>
  <span class="tags"><a href="/search/@keywords art">art</a></span>
</section>
</body></html>"#;

const NO_TAGS_PAGE: &str = r#"<html><body>
<div class="submission-id-sub-container">
  <div class="submission-title"><p>Quiet</p></div>
  <strong>someone</strong>
  <span class="popup_date" title="Jan 2, 2026">long ago</span>
</div>
<div class="download"><a href="//d.example.net/q.png">Download</a></div>
</body></html>"#;

fn item(tags: &[&str]) -> SubmissionData {
    SubmissionData {
        url: "https://d.example.net/x.png".to_string(),
        title: "t".to_string(),
        artist: "a".to_string(),
        date: "d".to_string(),
        tags: tags.iter().map(|t| t.to_string()).collect(),
    }
}

#[test]
fn listing_ids_in_page_order() {
    let page = r#"<html><body><section>
        <figure id="sid-101"><img src="a"></figure>
        <figure id="sid-102"><img src="b"></figure>
        <figure id="sid-103"><img src="c"></figure>
        </section></body></html>"#;
    assert_eq!(parse_proto_ids(page), vec![101, 102, 103]);
}

#[test]
fn listing_skips_malformed_entries() {
    let page = r#"<html><body>
        <figure id="sid-7"></figure>
        <figure></figure>
        <figure id="sid-x9"></figure>
        <figure id="sid-"></figure>
        <figure id="sid-42"></figure>
        </body></html>"#;
    assert_eq!(parse_proto_ids(page), vec![7, 42]);
}

#[test]
fn listing_without_entries_is_empty() {
    assert_eq!(parse_proto_ids("<html><body><p>nothing</p></body></html>"), Vec::<i64>::new());
}

#[test]
fn id_attribute_forms() {
    assert_eq!(parse_id("sid-101"), Some(101));
    assert_eq!(parse_id("55"), Some(55));
    assert_eq!(parse_id("sid-"), None);
    assert_eq!(parse_id(""), None);
    assert_eq!(parse_id("sid-12a"), None);
    assert_eq!(parse_id("sid-9223372036854775807"), Some(i64::MAX));
    assert_eq!(parse_id("sid-9223372036854775808"), None);
    assert_eq!(parse_id("sid-0042"), Some(42));
}

#[test]
fn ids_from_attributes_skip_missing() {
    let attrs = vec![Some("sid-3".to_string()), None, Some("bad".to_string()), Some("sid-1".to_string())];
    assert_eq!(ids_from_attrs(&attrs), vec![3, 1]);
}

#[test]
fn detail_page_round_trip() {
    let d = parse_submission_text(DETAIL_PAGE).expect("well-formed page");
    assert_eq!(d.url, "https://d.example.net/art/painter/sunset.png");
    assert_eq!(d.title, "Sunset Walk");
    assert_eq!(d.artist, "painter");
    assert_eq!(d.date, "Oct 1, 2026 10:00 AM");
    assert_eq!(d.tags, vec!["sfw".to_string(), "art".to_string()]);
}

#[test]
fn detail_page_without_tag_row_has_no_tags() {
    let d = parse_submission_text(NO_TAGS_PAGE).expect("well-formed page");
    assert!(d.tags.is_empty());
    assert_eq!(d.title, "Quiet");
    assert_eq!(d.artist, "someone");
    assert_eq!(d.url, "https://d.example.net/q.png");
}

#[test]
fn detail_page_without_container_is_malformed() {
    let r = parse_submission_text("<html><body><p>gone</p></body></html>");
    assert_eq!(r.err(), Some(MalformedDetail::Container));
}

#[test]
fn detail_page_without_download_is_malformed() {
    let page = NO_TAGS_PAGE.replace("class=\"download\"", "class=\"other\"");
    assert_eq!(parse_submission_text(&page).err(), Some(MalformedDetail::Url));
}

#[test]
fn detail_page_with_empty_link_keeps_scheme() {
    let page = NO_TAGS_PAGE.replace("href=\"//d.example.net/q.png\"", "href=\"\"");
    let d = parse_submission_text(&page).expect("link present, if empty");
    assert_eq!(d.url, "https:");
    assert_eq!(d.title, "Quiet");
}

#[test]
fn detail_page_keeps_tag_order_and_repeats() {
    let page = DETAIL_PAGE.replace(
        "<span class=\"tags\"><a href=\"/search/@keywords art\">art</a></span>",
        "<span class=\"tags\"><a>art</a></span><span class=\"tags\"><a>sfw</a></span>",
    );
    let d = parse_submission_text(&page).expect("well-formed page");
    assert_eq!(d.tags, vec!["sfw".to_string(), "art".to_string(), "sfw".to_string()]);
}

#[test]
fn build_reports_first_missing_field() {
    let s = |x: &str| Some(x.to_string());
    assert_eq!(build_submission(None, None, s("a"), s("t"), s("d")).err(), Some(MalformedDetail::Url));
    assert_eq!(build_submission(s("//u"), None, s(""), s("t"), s("d")).err(), Some(MalformedDetail::Artist));
    assert_eq!(build_submission(s("//u"), None, s("a"), None, s("d")).err(), Some(MalformedDetail::Title));
    assert_eq!(build_submission(s("//u"), None, s("a"), s("t"), None).err(), Some(MalformedDetail::Date));
    let empty_link = build_submission(s(""), None, s("a"), s("t"), s("d")).unwrap();
    assert_eq!(empty_link.url, "https:");
    let d = build_submission(s("//u"), None, s("a"), s("t"), s("d")).unwrap();
    assert_eq!(d.url, "https://u");
    assert!(d.tags.is_empty());
}

#[test]
fn exclusion_ignores_case() {
    let bl = vec!["nsfw".to_string()];
    assert!(is_blacklisted(&item(&["art", "NSFW"]), &bl));
    assert!(is_blacklisted(&item(&["NsFw", "art"]), &bl));
    assert!(!is_blacklisted(&item(&["sfw", "art"]), &bl));
    assert!(is_blacklisted(&item(&["nsfw"]), &vec!["NSFW".to_string()]));
}

#[test]
fn exclusion_is_exact_not_substring() {
    let bl = vec!["nsfw".to_string()];
    assert!(!is_blacklisted(&item(&["nsfw-ish", "not nsfw"]), &bl));
    assert!(!is_blacklisted(&item(&[]), &bl));
    assert!(!is_blacklisted(&item(&["nsfw"]), &[]));
}

#[test]
fn folding_only_touches_ascii_letters() {
    assert!(same_folded("Tag-1", "tAG-1"));
    assert!(!same_folded("tag", "tags"));
    assert!(!same_folded("Ä", "ä"));
}

#[test]
fn tags_joined_with_comma() {
    assert_eq!(join_tags(&vec![]), "");
    assert_eq!(join_tags(&vec!["a".to_string()]), "a");
    assert_eq!(join_tags(&vec!["a".to_string(), "b".to_string(), "c".to_string()]), "a, b, c");
}
