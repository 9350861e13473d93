use kaiheila::envelope::check_status;
use kaiheila::error::{ApiError, HttpMethod};
use kaiheila::pagination::{
    GuildListMeta, GuildListUserMeta, PageRequest, PageStream, PollResult,
};

fn meta(page: i64, page_total: i64, page_size: i64, total: i64) -> GuildListMeta {
    GuildListMeta { page, page_total, page_size, total }
}

/// Drives a stream against mocked pages, recording every request the
/// stream asks for and every item it yields. `pages[k]` answers the k-th
/// request; `None` there means that fetch fails.
fn drive(
    pages: &[Option<(Vec<&'static str>, GuildListMeta)>],
) -> (Vec<PageRequest>, Vec<&'static str>, bool) {
    let mut stream: PageStream<&'static str> = PageStream::new();
    let mut requests: Vec<PageRequest> = Vec::new();
    let mut yielded: Vec<&'static str> = Vec::new();
    let mut failed = false;
    loop {
        match stream.poll() {
            PollResult::Item(it) => yielded.push(it),
            PollResult::Fetch(rq) => {
                requests.push(rq);
                match pages.get(requests.len() - 1) {
                    Some(Some((items, m))) => {
                        assert!(stream.is_awaiting_page());
                        stream.supply_page(items.clone(), m);
                    },
                    _ => {
                        failed = true;
                        stream.fail();
                    },
                }
            },
            PollResult::End => break,
        }
    }
    (requests, yielded, failed)
}

#[test]
fn single_page_single_request() {
    let (requests, yielded, failed) = drive(&[Some((
        vec!["a", "b", "c"],
        meta(1, 1, 3, 3),
    ))]);
    assert_eq!(requests, vec![PageRequest::First]);
    assert_eq!(yielded, vec!["a", "b", "c"]);
    assert!(!failed);
}

#[test]
fn three_pages_three_requests_in_order() {
    let (requests, yielded, failed) = drive(&[
        Some((vec!["a", "b"], meta(1, 3, 2, 6))),
        Some((vec!["c", "d"], meta(2, 3, 2, 6))),
        Some((vec!["e", "f"], meta(3, 3, 2, 6))),
    ]);
    assert_eq!(
        requests,
        vec![
            PageRequest::First,
            PageRequest::Numbered { page: 2, page_size: 2 },
            PageRequest::Numbered { page: 3, page_size: 2 },
        ]
    );
    assert_eq!(yielded, vec!["a", "b", "c", "d", "e", "f"]);
    assert!(!failed);
}

#[test]
fn failed_second_page_stops_before_third() {
    let (requests, yielded, failed) = drive(&[
        Some((vec!["a", "b"], meta(1, 3, 2, 6))),
        None, // the second fetch fails
        Some((vec!["e", "f"], meta(3, 3, 2, 6))),
    ]);
    // all of page one's items came through, then the failure ended it:
    // no request for page 3 was ever issued
    assert_eq!(
        requests,
        vec![PageRequest::First, PageRequest::Numbered { page: 2, page_size: 2 }]
    );
    assert_eq!(yielded, vec!["a", "b"]);
    assert!(failed);
    // what the failed fetch surfaces when the server answered 500
    match check_status(HttpMethod::Get, "https://mock/guild/list", 500) {
        Err(ApiError::HTTPStatusNotOK { status, .. }) => assert_eq!(status, 500),
        other => panic!("expected HTTPStatusNotOK, got {:?}", other),
    }
}

#[test]
fn page_total_from_first_page_is_authoritative() {
    // later pages report a different page_total; the first one rules
    let (requests, yielded, _) = drive(&[
        Some((vec!["a"], meta(1, 2, 1, 99))),
        Some((vec!["b"], meta(2, 9, 1, 99))),
    ]);
    assert_eq!(
        requests,
        vec![PageRequest::First, PageRequest::Numbered { page: 2, page_size: 1 }]
    );
    assert_eq!(yielded, vec!["a", "b"]);
}

#[test]
fn page_total_under_one_means_done() {
    let (requests, yielded, _) = drive(&[Some((vec!["a"], meta(1, 0, 1, 0)))]);
    assert_eq!(requests, vec![PageRequest::First]);
    assert_eq!(yielded, vec!["a"]);
}

#[test]
fn page_size_is_echoed_not_recomputed() {
    let (requests, _, _) = drive(&[
        Some((vec!["a"], meta(1, 2, 50, 51))),
        Some((vec!["b"], meta(2, 2, 50, 51))),
    ]);
    assert_eq!(requests[1], PageRequest::Numbered { page: 2, page_size: 50 });
}

#[test]
fn numbered_request_query_params() {
    let q = PageRequest::Numbered { page: 2, page_size: 50 }.query_params();
    assert_eq!(
        q,
        vec![
            (String::from("page"), String::from("2")),
            (String::from("page_size"), String::from("50")),
        ]
    );
    assert!(PageRequest::First.query_params().is_empty());
}

#[test]
fn user_meta_converts_to_list_meta() {
    let m = GuildListUserMeta { page: 1, page_total: 4, page_size: 25, total: 100 };
    let l = m.as_list_meta();
    assert_eq!(l, meta(1, 4, 25, 100));
}

#[test]
fn two_streams_are_independent() {
    let mut first: PageStream<u8> = PageStream::new();
    let mut second: PageStream<u8> = PageStream::new();
    assert!(matches!(first.poll(), PollResult::Fetch(PageRequest::First)));
    first.supply_page(vec![1], &meta(1, 1, 1, 1));
    // the second stream still wants its own first page
    assert!(matches!(second.poll(), PollResult::Fetch(PageRequest::First)));
    assert!(matches!(first.poll(), PollResult::Item(1)));
    assert!(matches!(first.poll(), PollResult::End));
}
