use scstream::catalog::Protocol;
use scstream::catalog::SearchResultSet;
use scstream::catalog::TrackDescriptor;
use scstream::catalog::Transcoding;
use scstream::catalog::build_search_results;
use scstream::catalog::has_progressive_exec;
use scstream::catalog::make_label;

fn track(
    title: &str,
    user: &str,
    duration: u64,
    protocols: &[Protocol],
    permalink: Option<&str>,
) -> TrackDescriptor {
    TrackDescriptor {
        title: title.to_string(),
        duration,
        username: user.to_string(),
        transcodings: protocols
            .iter()
            .enumerate()
            .map(|(i, p)| Transcoding { url: format!("https://api.example/t/{}", i), protocol: *p })
            .collect(),
        permalink_url: permalink.map(|s| s.to_string()),
    }
}

#[test]
fn label_formats_user_dash_title() {
    assert_eq!(make_label("somebody", "a song"), "somebody - a song");
}

#[test]
fn results_keep_only_streamable_tracks() {
    let collection = vec![
        track("keeper", "user1", 100, &[Protocol::Hls, Protocol::Progressive], Some("https://x/1")),
        track("hls only", "user2", 200, &[Protocol::Hls], Some("https://x/2")),
        track("no permalink", "user3", 300, &[Protocol::Progressive], None),
        track("no renditions", "user4", 400, &[], Some("https://x/4")),
    ];
    let set = build_search_results(&collection);
    assert_eq!(set.result_count(), 1);
    assert_eq!(set.title(0).unwrap(), "user1 - keeper");
    assert_eq!(set.url(0).unwrap(), "https://x/1");
    assert_eq!(set.entries[0].duration, 100);
}

#[test]
fn result_count_equals_filtered_subset_size() {
    let collection = vec![
        track("a", "u", 1, &[Protocol::Progressive], Some("https://x/a")),
        track("b", "u", 2, &[Protocol::Hls], Some("https://x/b")),
        track("c", "u", 3, &[Protocol::Progressive], Some("https://x/c")),
    ];
    let streamable = collection
        .iter()
        .filter(|t| has_progressive_exec(t) && t.permalink_url.is_some())
        .count();
    let set = build_search_results(&collection);
    assert_eq!(set.result_count(), streamable);
    assert_eq!(set.result_count(), 2);
}

#[test]
fn search_scenario_titles_and_release() {
    // the shape of a response to the query "lofi beats"
    let collection = vec![
        track("lofi beats vol. 1", "chillhop", 180, &[Protocol::Progressive], Some("https://x/lofi1")),
        track("lofi beats vol. 2", "chillhop", 200, &[Protocol::Progressive], Some("https://x/lofi2")),
    ];
    let mut set = build_search_results(&collection);
    let count = set.result_count();
    assert!(count == 2);
    for i in 0..set.result_count() {
        let title = set.title(i).unwrap().clone();
        let (user, rest) = title.split_once(" - ").expect("label is \"user - track\"");
        assert_eq!(user, "chillhop");
        assert!(rest.starts_with("lofi beats"));
    }
    set.release();
    assert_eq!(set.result_count(), 0);
    assert!(set.title(0).is_none());
    assert!(set.url(0).is_none());
    assert!(set.title(7).is_none());
}

#[test]
fn out_of_range_index_is_none() {
    let collection = vec![track("a", "u", 1, &[Protocol::Progressive], Some("https://x/a"))];
    let set = build_search_results(&collection);
    assert!(set.title(1).is_none());
    assert!(set.url(99).is_none());
    assert!(set.title(0).is_some());
}

#[test]
fn empty_response_gives_empty_set() {
    let set: SearchResultSet = build_search_results(&Vec::new());
    assert_eq!(set.result_count(), 0);
    assert!(set.title(0).is_none());
}
