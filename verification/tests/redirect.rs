use cattgram::redirect::resolve_share_url;

fn redirect(status: u16, location: &str) -> (u16, Option<String>) {
    (status, Some(location.to_string()))
}

#[test]
fn chain_of_three_then_resolving_redirect_returns_id() {
    let responses = vec![
        redirect(301, "https://www.instagram.com/stories/hop1/"),
        redirect(302, "https://www.instagram.com/hop2/"),
        redirect(301, "https://www.instagram.com/hop3/"),
        redirect(302, "https://www.instagram.com/p/ABC123/"),
    ];
    assert_eq!(resolve_share_url("share/x1", &responses), Some("ABC123".to_string()));
}

#[test]
fn relative_location_is_resolved_against_current_url() {
    let responses = vec![redirect(302, "/reel/DEF456/")];
    assert_eq!(resolve_share_url("share/y2", &responses), Some("DEF456".to_string()));
}

#[test]
fn non_redirect_extracts_from_current_url() {
    let responses = vec![
        redirect(301, "https://www.instagram.com/p/GHI789/extra"),
        (200, None),
    ];
    // the first redirect's target already carries the id
    assert_eq!(resolve_share_url("share/z3", &responses), Some("GHI789".to_string()));
}

#[test]
fn non_redirect_without_id_gives_up() {
    let responses = vec![(200, None)];
    assert_eq!(resolve_share_url("share/a4", &responses), None);
}

#[test]
fn chain_exceeding_hop_limit_returns_none() {
    let responses = vec![
        redirect(301, "https://www.instagram.com/h1/"),
        redirect(301, "https://www.instagram.com/h2/"),
        redirect(301, "https://www.instagram.com/h3/"),
        redirect(301, "https://www.instagram.com/h4/"),
        redirect(301, "https://www.instagram.com/h5/"),
        redirect(301, "https://www.instagram.com/p/LATE99/"),
    ];
    // five hops were spent following; the sixth response is never consulted
    assert_eq!(resolve_share_url("share/b5", &responses), None);
}

#[test]
fn redirect_without_location_gives_up() {
    let responses = vec![(301, None)];
    assert_eq!(resolve_share_url("share/c6", &responses), None);
}

#[test]
fn exhausted_responses_give_up() {
    let responses = vec![redirect(301, "https://www.instagram.com/mid/")];
    assert_eq!(resolve_share_url("share/d7", &responses), None);
}

#[test]
fn unparseable_location_gives_up() {
    // a relative join against a base works, but a location that parses
    // nowhere ends the chain
    let responses = vec![(301, Some("http://[bad".to_string()))];
    assert_eq!(resolve_share_url("share/e8", &responses), None);
}
