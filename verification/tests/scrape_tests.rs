use scstream::scrape::credential_candidates;
use scstream::scrape::extract_script_sources;
use scstream::scrape::find_client_id;
use scstream::scrape::resolve_script_url;

#[test]
fn scripts_found_in_document_order() {
    let page = "<script src=\"/assets/app-1.js\"></script>\n<script src=\"https://cdn.example.com/vendor.js\"></script>";
    let srcs = extract_script_sources(page);
    assert_eq!(srcs.len(), 2);
    assert_eq!(srcs[0], "/assets/app-1.js");
    assert_eq!(srcs[1], "https://cdn.example.com/vendor.js");
}

#[test]
fn non_script_references_are_rejected() {
    let page = "<img src=\"logo.png\"><script src=\"style.css\"></script><script src=\"a.js\">";
    let srcs = extract_script_sources(page);
    assert_eq!(srcs.len(), 1);
    assert_eq!(srcs[0], "a.js");
}

#[test]
fn too_short_capture_is_rejected() {
    // the path must have at least one character before the `.js` tail
    let page = "<script src=\".js\"></script><script src=\"b.js\"></script>";
    let srcs = extract_script_sources(page);
    assert_eq!(srcs, vec!["b.js".to_string()]);
}

#[test]
fn unterminated_reference_yields_nothing_more() {
    let page = "<script src=\"left-open.js";
    let srcs = extract_script_sources(page);
    assert!(srcs.is_empty());
}

#[test]
fn protocol_relative_path_is_resolved_against_origin() {
    assert_eq!(resolve_script_url("/assets/app.js"), "https://soundcloud.com/assets/app.js");
    assert_eq!(resolve_script_url("https://cdn.example.com/v.js"), "https://cdn.example.com/v.js");
}

#[test]
fn candidates_are_reversed_and_capped() {
    let page = "<script src=\"/a.js\"></script><script src=\"/b.js\"></script><script src=\"/c.js\"></script>";
    let cands = credential_candidates(page, 2);
    assert_eq!(cands.len(), 2);
    assert_eq!(cands[0], "https://soundcloud.com/c.js");
    assert_eq!(cands[1], "https://soundcloud.com/b.js");
}

#[test]
fn candidates_with_large_limit_take_all() {
    let page = "<script src=\"/a.js\"></script><script src=\"/b.js\"></script>";
    let cands = credential_candidates(page, 5);
    assert_eq!(cands.len(), 2);
    assert_eq!(cands[0], "https://soundcloud.com/b.js");
    assert_eq!(cands[1], "https://soundcloud.com/a.js");
}

#[test]
fn client_id_colon_quoted() {
    let js = "var cfg={client_id:\"AbCdEfGhIjKlMnOpQrStUvWxYz012345\"};";
    assert_eq!(find_client_id(js), Some("AbCdEfGhIjKlMnOpQrStUvWxYz012345".to_string()));
}

#[test]
fn client_id_equals_single_quoted_with_spaces() {
    let js = "client_id=   'zyxwvutsrqponmlkjihgfedcba543210'";
    assert_eq!(find_client_id(js), Some("zyxwvutsrqponmlkjihgfedcba543210".to_string()));
}

#[test]
fn client_id_bare_token() {
    let js = "client_id=AAAAaaaa0000BBBBbbbb1111CCCCcccc and more";
    assert_eq!(find_client_id(js), Some("AAAAaaaa0000BBBBbbbb1111CCCCcccc".to_string()));
}

#[test]
fn client_id_too_short_is_no_match() {
    let js = "client_id:\"tooShort123\"";
    assert_eq!(find_client_id(js), None);
}

#[test]
fn client_id_missing_is_no_match() {
    let js = "var unrelated = 1; app_id:\"AbCdEfGhIjKlMnOpQrStUvWxYz012345\"";
    assert_eq!(find_client_id(js), None);
}

#[test]
fn leftmost_binding_wins() {
    let js = "client_id:\"AAAAaaaa0000BBBBbbbb1111CCCCcccc\" client_id:\"zyxwvutsrqponmlkjihgfedcba543210\"";
    assert_eq!(find_client_id(js), Some("AAAAaaaa0000BBBBbbbb1111CCCCcccc".to_string()));
}

#[test]
fn longer_run_takes_first_32_characters() {
    let js = "client_id=AAAAaaaa0000BBBBbbbb1111CCCCccccDD";
    assert_eq!(find_client_id(js), Some("AAAAaaaa0000BBBBbbbb1111CCCCcccc".to_string()));
}
