use tagstream::error::TagError;
use tagstream::tag::SimulatedTag;
use tagstream::user_requests::{
    same_uid, Detection, Reaction, UserRequest, UserRequestTransmitterRfid, UserRequests,
};

fn tag_with(s: &str) -> SimulatedTag {
    let mut tag = SimulatedTag::new();
    tag.write_string(s).unwrap();
    tag
}

fn drain(rx: &mut UserRequests<UserRequest>) -> Vec<Option<UserRequest>> {
    let mut out = Vec::new();
    while let Some(event) = rx.next() {
        out.push(event);
    }
    out
}

struct Run {
    watcher: UserRequestTransmitterRfid,
    events: UserRequests<UserRequest>,
    decodes: usize,
    reports: usize,
}

fn run(polls: &[Option<(Vec<u8>, &SimulatedTag)>]) -> Run {
    let mut r = Run {
        watcher: UserRequestTransmitterRfid::new(),
        events: UserRequests::new(),
        decodes: 0,
        reports: 0,
    };
    for poll in polls {
        let detection = match poll {
            None => Detection::NoTag,
            Some((uid, _)) => Detection::Tag(uid.clone()),
        };
        if r.watcher.poll(&detection, &mut r.events) == Reaction::Decode {
            let (uid, tag) = poll.as_ref().unwrap();
            r.decodes += 1;
            let outcome = tag.read_string().map(UserRequest::SpotifyUri);
            if r.watcher.decoded(uid.clone(), outcome, &mut r.events).is_some() {
                r.reports += 1;
            }
        }
    }
    r
}

#[test]
fn a_tag_is_decoded_once_per_appearance() {
    let a = tag_with("spotify:album:a");
    let b = tag_with("spotify:track:b");
    let ua = vec![1u8, 2, 3, 4];
    let ub = vec![9u8, 8, 7, 6];
    let mut r = run(&[
        None,
        Some((ua.clone(), &a)),
        Some((ua.clone(), &a)),
        Some((ua.clone(), &a)),
        None,
        Some((ub.clone(), &b)),
    ]);
    assert_eq!(r.decodes, 2);
    assert_eq!(
        drain(&mut r.events),
        vec![
            Some(UserRequest::SpotifyUri("spotify:album:a".to_string())),
            None,
            Some(UserRequest::SpotifyUri("spotify:track:b".to_string())),
        ]
    );
    assert_eq!(r.watcher.last_uid, Some(ub));
}

#[test]
fn no_tag_after_no_tag_sends_nothing() {
    let mut r = run(&[None, None, None]);
    assert_eq!(drain(&mut r.events), vec![]);
    assert_eq!(r.watcher.last_uid, None);
}

#[test]
fn the_same_tag_comes_back_after_leaving() {
    let a = tag_with("x");
    let ua = vec![1u8];
    let mut r = run(&[Some((ua.clone(), &a)), None, None, Some((ua.clone(), &a))]);
    assert_eq!(r.decodes, 2);
    assert_eq!(
        drain(&mut r.events),
        vec![
            Some(UserRequest::SpotifyUri("x".to_string())),
            None,
            Some(UserRequest::SpotifyUri("x".to_string())),
        ]
    );
}

#[test]
fn a_tag_that_does_not_decode_is_tried_again() {
    let blank = SimulatedTag::new();
    let u = vec![5u8, 5];
    let mut r = run(&[Some((u.clone(), &blank)), Some((u.clone(), &blank)), None]);
    assert_eq!(r.decodes, 2);
    assert_eq!(r.reports, 2);
    assert_eq!(drain(&mut r.events), vec![]);
    assert_eq!(r.watcher.last_uid, None);
}

#[test]
fn a_failed_decode_hands_the_error_back() {
    let mut w = UserRequestTransmitterRfid::new();
    let mut tx: UserRequests<UserRequest> = UserRequests::new();
    assert_eq!(w.poll(&Detection::Tag(vec![1]), &mut tx), Reaction::Decode);
    assert_eq!(w.decoded(vec![1], Err(TagError::Authentication), &mut tx), Some(TagError::Authentication));
    assert_eq!(w.last_uid, None);
    assert_eq!(w.poll(&Detection::Tag(vec![1]), &mut tx), Reaction::Decode);
    assert_eq!(w.decoded(vec![1], Ok(UserRequest::SpotifyUri("u".to_string())), &mut tx), None);
    assert_eq!(w.last_uid, Some(vec![1]));
    assert_eq!(w.poll(&Detection::Tag(vec![1]), &mut tx), Reaction::Idle);
    assert_eq!(tx.pending, vec![Some(UserRequest::SpotifyUri("u".to_string()))]);
}

#[test]
fn a_failed_poll_is_reported_and_changes_nothing() {
    let mut w = UserRequestTransmitterRfid::new();
    let mut tx: UserRequests<String> = UserRequests::new();
    assert_eq!(w.poll(&Detection::Fault, &mut tx), Reaction::Report);
    assert_eq!(w.last_uid, None);
    assert_eq!(w.decoded(vec![7], Ok("r".to_string()), &mut tx), None);
    assert_eq!(w.poll(&Detection::Fault, &mut tx), Reaction::Report);
    assert_eq!(w.last_uid, Some(vec![7]));
    assert_eq!(w.poll(&Detection::NoTag, &mut tx), Reaction::Absence);
    assert_eq!(w.poll(&Detection::NoTag, &mut tx), Reaction::Idle);
    assert_eq!(tx.pending, vec![Some("r".to_string()), None]);
}

#[test]
fn events_come_out_in_the_order_they_went_in() {
    let mut q: UserRequests<u32> = UserRequests::new();
    assert_eq!(q.next(), None);
    q.send(Some(1));
    q.send(None);
    q.send(Some(2));
    assert_eq!(q.next(), Some(Some(1)));
    q.send(Some(3));
    assert_eq!(q.next(), Some(None));
    assert_eq!(q.next(), Some(Some(2)));
    assert_eq!(q.next(), Some(Some(3)));
    assert_eq!(q.next(), None);
    assert_eq!(q.next(), None);
}

#[test]
fn identifiers_compare_byte_by_byte() {
    assert!(same_uid(&[], &[]));
    assert!(same_uid(&[1, 2, 3, 4], &[1, 2, 3, 4]));
    assert!(!same_uid(&[1, 2, 3, 4], &[1, 2, 3, 5]));
    assert!(!same_uid(&[1, 2, 3], &[1, 2, 3, 4]));
}

#[test]
fn the_reader_is_polled_every_two_seconds() {
    assert_eq!(tagstream::user_requests::POLL_INTERVAL_SECS, 2);
}
