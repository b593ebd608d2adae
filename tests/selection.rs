use resizer::keys::{
    decimal_chars, expected_thumbnail_key, extension_accepted_exec, extension_of, file_name, is_any_thumbnail,
    is_thumbnail_marker_present, matches_target_extension, KeyError,
};
use resizer::selection::{select_targets, InputEvent, ListingStep, Selection};

fn event(prefix: &str, size: u32, ext: Option<&str>) -> InputEvent {
    InputEvent::new(
        "bucket".to_string(),
        prefix.to_string(),
        size,
        ext.map(|e| e.to_string()),
    )
}

fn keys(ks: &[&str]) -> Vec<String> {
    ks.iter().map(|k| k.to_string()).collect()
}

#[test]
fn existing_thumbnail_leaves_no_target() {
    let t = select_targets(&event("p", 100, None), &keys(&["p/1/a.jpg", "p/1/thumb_100x100_a.jpg"]));
    assert!(t.is_empty());
}

#[test]
fn missing_thumbnail_selects_source() {
    let t = select_targets(&event("p", 100, None), &keys(&["p/1/a.jpg"]));
    assert_eq!(t, keys(&["p/1/a.jpg"]));
    assert_eq!(
        expected_thumbnail_key("p/1/a.jpg", "p", 100),
        Ok("p/1/thumb_100x100_a.jpg".to_string())
    );
}

#[test]
fn gif_is_no_candidate_by_default() {
    assert!(!matches_target_extension("p/1/a.gif", &None));
    let t = select_targets(&event("p", 100, None), &keys(&["p/1/a.gif"]));
    assert!(t.is_empty());
}

#[test]
fn other_size_thumbnail_is_neither_source_nor_existing() {
    assert!(is_any_thumbnail("p/1/thumb_50x50_a.jpg"));
    assert!(!is_thumbnail_marker_present("p/1/thumb_50x50_a.jpg", 100));
    let t = select_targets(&event("p", 100, None), &keys(&["p/1/thumb_50x50_a.jpg"]));
    assert!(t.is_empty());
}

#[test]
fn key_without_identifier_is_skipped() {
    assert_eq!(expected_thumbnail_key("a.jpg", "p", 100), Err(KeyError::MalformedKey));
    let t = select_targets(&event("p", 100, None), &keys(&["a.jpg", "p/2/b.png"]));
    assert_eq!(t, keys(&["p/2/b.png"]));
}

#[test]
fn key_without_extension_never_matches() {
    assert!(!matches_target_extension("p/1/README", &None));
    assert!(!matches_target_extension("p/1/README", &Some("jpg".to_string())));
    assert!(!matches_target_extension("p.d/1/README", &None));
    assert_eq!(extension_of("p.d/1/README"), None);
}

#[test]
fn marker_implies_thumbnail() {
    for k in ["p/1/thumb_100x100_a.jpg", "thumb_7x7", "x/thumb_100x1000_b.png"] {
        assert!(is_thumbnail_marker_present(k, 100) || is_thumbnail_marker_present(k, 7));
        assert!(is_any_thumbnail(k));
    }
    assert!(is_any_thumbnail("p/1/thumb_a.jpg"));
    assert!(!is_thumbnail_marker_present("p/1/thumb_a.jpg", 100));
}

#[test]
fn thumbnail_keys_of_distinct_pairs_differ() {
    let a = expected_thumbnail_key("x/1/a.jpg", "p", 100).unwrap();
    let b = expected_thumbnail_key("x/2/a.jpg", "p", 100).unwrap();
    let c = expected_thumbnail_key("x/1/b.jpg", "p", 100).unwrap();
    let a2 = expected_thumbnail_key("y/z/1/a.jpg", "p", 100).unwrap();
    assert_ne!(a, b);
    assert_ne!(a, c);
    assert_ne!(b, c);
    assert_eq!(a, a2);
    assert_eq!(a, "p/1/thumb_100x100_a.jpg");
}

#[test]
fn second_run_selects_nothing() {
    let ev = event("p", 64, None);
    let mut listing = keys(&["p/1/a.jpg", "p/2/b.PNG", "p/3/c.jpeg", "p/3/thumb_64x64_c.jpeg", "d.jpg"]);
    let first = select_targets(&ev, &listing);
    assert_eq!(first, keys(&["p/1/a.jpg", "p/2/b.PNG"]));
    for t in &first {
        listing.push(expected_thumbnail_key(t, "p", 64).unwrap());
    }
    assert!(select_targets(&ev, &listing).is_empty());
}

#[test]
fn thumbnails_on_a_later_page_count() {
    let ev = event("p", 100, None);
    let mut s = Selection::new(&ev);
    match s.on_page(&keys(&["p/1/a.jpg", "p/2/b.jpg"]), Some("c1".to_string())) {
        ListingStep::FetchPage(c) => assert_eq!(c, "c1"),
        ListingStep::Process(_) => panic!("listing ended early"),
    }
    match s.on_page(&keys(&["p/1/thumb_100x100_a.jpg"]), None) {
        ListingStep::Process(t) => assert_eq!(t, keys(&["p/2/b.jpg"])),
        ListingStep::FetchPage(_) => panic!("listing did not end"),
    }
}

#[test]
fn configured_extension_is_compared_lowercased() {
    assert!(matches_target_extension("p/1/a.PNG", &Some("png".to_string())));
    assert!(matches_target_extension("p/1/a.png", &Some("PNG".to_string())));
    assert!(!matches_target_extension("p/1/a.jpg", &Some("png".to_string())));
    assert!(matches_target_extension("p/1/a.gif", &Some("gif".to_string())));
    let t = select_targets(&event("p", 10, Some("gif")), &keys(&["p/1/a.gif", "p/1/b.jpg"]));
    assert_eq!(t, keys(&["p/1/a.gif"]));
}

#[test]
fn extension_is_lowercased() {
    assert_eq!(extension_of("p/1/A.JPG"), Some("jpg".to_string()));
    assert_eq!(extension_of("p/1/a.tar.Gz"), Some("gz".to_string()));
    assert_eq!(extension_of("p/1.x/a"), None);
    assert!(matches_target_extension("p/1/A.JPEG", &None));
}

#[test]
fn file_name_is_last_segment() {
    assert_eq!(file_name("p/1/a.jpg"), Ok("a.jpg".to_string()));
    assert_eq!(file_name("a.jpg"), Ok("a.jpg".to_string()));
    assert_eq!(file_name("p/1/"), Ok(String::new()));
    assert_eq!(file_name(""), Err(KeyError::MalformedKey));
}

#[test]
fn thumbnail_key_uses_configured_prefix_and_size() {
    assert_eq!(
        expected_thumbnail_key("photos/2020/42/pic.png", "thumbs", 7),
        Ok("thumbs/42/thumb_7x7_pic.png".to_string())
    );
    assert_eq!(
        expected_thumbnail_key("/a.jpg", "p", 4294967295),
        Ok("p//thumb_4294967295x4294967295_a.jpg".to_string())
    );
}

#[test]
fn decimal_digits() {
    assert_eq!(decimal_chars(0), vec!['0']);
    assert_eq!(decimal_chars(1230), vec!['1', '2', '3', '0']);
}

#[test]
fn empty_listing_selects_nothing() {
    assert!(select_targets(&event("p", 100, None), &Vec::new()).is_empty());
}

#[test]
fn lowercased_extension_against_target() {
    let jpg = vec!['j', 'p', 'g'];
    assert!(extension_accepted_exec(&jpg, &None));
    assert!(extension_accepted_exec(&vec!['p', 'n', 'g'], &None));
    assert!(extension_accepted_exec(&vec!['j', 'p', 'e', 'g'], &None));
    assert!(!extension_accepted_exec(&vec!['g', 'i', 'f'], &None));
    assert!(!extension_accepted_exec(&vec![], &None));
    assert!(extension_accepted_exec(&vec!['g', 'i', 'f'], &Some(vec!['g', 'i', 'f'])));
    assert!(!extension_accepted_exec(&jpg, &Some(vec!['p', 'n', 'g'])));
}

#[test]
fn second_run_in_another_order_selects_nothing() {
    let ev = event("p", 100, None);
    let listing = keys(&["p/1/a.jpg", "p/2/b.png"]);
    let first = select_targets(&ev, &listing);
    let mut second: Vec<String> = first
        .iter()
        .map(|t| expected_thumbnail_key(t, "p", 100).unwrap())
        .collect();
    second.extend(listing.iter().rev().cloned());
    assert!(select_targets(&ev, &second).is_empty());
}
