use std::collections::HashSet;

use protowatch::{
    delivery_plan, parse_proto_ids, take_detail, take_if_unseen, DispatchStep, Dispatcher,
    MalformedDetail, Payload, RetryPolicy, SendOutcome, SubmissionData, RETRY_DELAY_MS,
};

fn detail_page(id: i64, tags: &[&str]) -> String {
    let tag_row: String = tags
        .iter()
        .map(|t| format!("<span class=\"tags\"><a>{}</a></span>", t))
        .collect();
    format!(
        "<html><body><div class=\"submission-id-sub-container\">\
         <div class=\"submission-title\"><p>Item {id}</p></div>\
         <strong>artist{id}</strong>\
         <span class=\"popup_date\" title=\"day {id}\">x</span></div>\
         <div class=\"download\"><a href=\"//cdn.example.net/{id}.png\">get</a></div>\
         <section class=\"tags-row\">{tag_row}</section></body></html>"
    )
}

fn sample(url: &str, tags: &[&str]) -> SubmissionData {
    SubmissionData {
        url: url.to_string(),
        title: "Title".to_string(),
        artist: "Artist".to_string(),
        date: "Today".to_string(),
        tags: tags.iter().map(|t| t.to_string()).collect(),
    }
}

#[test]
fn cycle_skips_seen_and_excluded() {
    let listing = "<html><body><figure id=\"sid-101\"></figure>\
                   <figure id=\"sid-102\"></figure><figure id=\"sid-103\"></figure></body></html>";
    let ids = parse_proto_ids(listing);
    assert_eq!(ids, vec![101, 102, 103]);

    let mut store: HashSet<i64> = HashSet::new();
    store.insert(102);
    let mut batch: Vec<i64> = Vec::new();
    for id in ids {
        let seen = store.contains(&id);
        if take_if_unseen(&mut batch, id, seen) {
            store.insert(id);
        }
    }
    assert_eq!(batch, vec![101, 103]);
    let expected: HashSet<i64> = [101, 102, 103].into_iter().collect();
    assert_eq!(store, expected);

    let blacklist = vec!["nsfw".to_string()];
    let mut kept: Vec<SubmissionData> = Vec::new();
    for id in batch.iter() {
        let page = if *id == 101 { detail_page(101, &["sfw", "art"]) } else { detail_page(103, &["nsfw"]) };
        let taken = take_detail(&mut kept, &page, &blacklist).unwrap();
        assert_eq!(taken, *id == 101);
    }
    assert_eq!(kept.len(), 1);
    assert_eq!(kept[0].url, "https://cdn.example.net/101.png");

    let plan = delivery_plan(&vec![7, 8], &kept);
    assert_eq!(plan.len(), 4);
    let channels: Vec<i64> = plan.iter().map(|d| d.channel).collect();
    assert_eq!(channels, vec![7, 7, 8, 8]);
    for d in plan.iter().step_by(2) {
        assert!(matches!(&d.payload, Payload::Link(u) if u == "https://cdn.example.net/101.png"));
    }
}

#[test]
fn listing_duplicates_taken_once() {
    let mut batch: Vec<i64> = Vec::new();
    assert!(take_if_unseen(&mut batch, 5, false));
    assert!(!take_if_unseen(&mut batch, 5, false));
    assert!(!take_if_unseen(&mut batch, 6, true));
    assert_eq!(batch, vec![5]);
}

#[test]
fn malformed_detail_is_reported_and_not_kept() {
    let mut kept: Vec<SubmissionData> = Vec::new();
    let r = take_detail(&mut kept, "<html><body></body></html>", &[]);
    assert_eq!(r, Err(MalformedDetail::Container));
    assert!(kept.is_empty());
}

#[test]
fn summary_payload_contents() {
    let plan = delivery_plan(&vec![1], &vec![sample("https://u", &["a", "b"])]);
    assert_eq!(plan.len(), 2);
    match &plan[1].payload {
        Payload::Summary { title, description, author } => {
            assert_eq!(title, "Title");
            assert_eq!(description, "Tags: a, b");
            assert_eq!(author, "Artist - Today");
        }
        Payload::Link(_) => panic!("summary expected second"),
    }
}

#[test]
fn plan_is_empty_without_destinations_or_items() {
    assert!(delivery_plan(&vec![], &vec![sample("https://u", &[])]).is_empty());
    assert!(delivery_plan(&vec![1, 2], &vec![]).is_empty());
}

#[test]
fn transient_failures_retry_same_message_in_order() {
    let kept = vec![sample("https://cdn.example.net/101.png", &["sfw"])];
    let plan = delivery_plan(&vec![10, 20], &kept);
    let mut d = Dispatcher::new(&plan, RetryPolicy::unbounded());
    let mut outcomes = vec![
        SendOutcome::Transient,
        SendOutcome::Transient,
        SendOutcome::Delivered,
        SendOutcome::Delivered,
        SendOutcome::Delivered,
        SendOutcome::Delivered,
    ]
    .into_iter();
    let mut sent: Vec<usize> = Vec::new();
    let mut waits = 0;
    let mut step = d.current();
    loop {
        match step {
            DispatchStep::Send(i) => {
                sent.push(i);
                step = d.record(outcomes.next().unwrap());
            }
            DispatchStep::Wait(ms) => {
                assert_eq!(ms, RETRY_DELAY_MS);
                waits += 1;
                step = d.current();
            }
            DispatchStep::Finished => break,
        }
    }
    assert_eq!(waits, 2);
    assert_eq!(sent, vec![0, 0, 0, 1, 2, 3]);
    assert_eq!(plan[0].channel, 10);
    assert_eq!(plan[2].channel, 20);
}

#[test]
fn fatal_failure_skips_rest_of_destination() {
    let kept = vec![sample("https://a", &[]), sample("https://b", &[])];
    let plan = delivery_plan(&vec![1, 2], &kept);
    let mut d = Dispatcher::new(&plan, RetryPolicy::unbounded());
    assert_eq!(d.current(), DispatchStep::Send(0));
    assert_eq!(d.record(SendOutcome::Fatal), DispatchStep::Send(4));
    assert_eq!(d.record(SendOutcome::Delivered), DispatchStep::Send(5));
    assert_eq!(d.record(SendOutcome::Delivered), DispatchStep::Send(6));
    assert_eq!(d.record(SendOutcome::Delivered), DispatchStep::Send(7));
    assert_eq!(d.record(SendOutcome::Delivered), DispatchStep::Finished);
}

#[test]
fn bounded_policy_gives_up_after_its_attempts() {
    let plan = delivery_plan(&vec![1, 2], &vec![sample("https://a", &[])]);
    let policy = RetryPolicy { delay_ms: 10, max_attempts: Some(2) };
    let mut d = Dispatcher::new(&plan, policy);
    assert_eq!(d.record(SendOutcome::Transient), DispatchStep::Wait(10));
    assert_eq!(d.current(), DispatchStep::Send(0));
    assert_eq!(d.record(SendOutcome::Transient), DispatchStep::Send(2));
    assert_eq!(d.failures, 0);
}

#[test]
fn unbounded_policy_defaults() {
    let p = RetryPolicy::unbounded();
    assert_eq!(p.delay_ms, 3500);
    assert_eq!(p.max_attempts, None);
}
