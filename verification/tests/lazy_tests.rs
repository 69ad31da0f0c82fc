use axtell_server::errors::FetchError;
use axtell_server::lazy::LazySlot;
use axtell_server::models;
use axtell_server::nodes::Challenge;
use axtell_server::nodes::PostValue;
use axtell_server::nodes::resolve_post;

fn post(id: i32) -> models::Post {
    models::Post {
        id,
        title: format!("title-{id}"),
        body: format!("body-{id}"),
        user_id: 100 + id,
        created_at: 1_000 + id as i64,
        updated_at: None,
        deleted_at: None,
    }
}

fn challenge(id: i32) -> models::Challenge {
    models::Challenge {
        post: post(id),
        data: models::ChallengeData { post_id: id, challenge_type_id: 2 },
        challenge_type: models::ChallengeType {
            id: 2,
            name: "code-golf".to_owned(),
            description: "shortest program wins".to_owned(),
        },
    }
}

fn response(id: i32, challenge_id: i32) -> models::Response {
    models::Response {
        post: post(id),
        data: models::ResponseData { post_id: id, challenge_id, code: "main = 0".to_owned() },
    }
}

#[test]
fn a_slot_memoizes_the_first_outcome_only() {
    let mut slot: LazySlot<i32> = LazySlot::new();
    assert!(!slot.is_filled());
    slot.fill(Ok(41));
    assert!(slot.is_filled());
    // A later outcome is ignored: the first fetch's result stands.
    slot.fill(Ok(99));
    slot.fill(Err(FetchError::new("late failure".to_owned())));
    assert_eq!(slot.get().as_ref().unwrap(), &41);
    // Two reads observe the same memoized value.
    assert_eq!(slot.get().as_ref().unwrap(), &41);
}

#[test]
fn a_failed_first_fetch_is_memoized_too() {
    let mut slot: LazySlot<i32> = LazySlot::new();
    slot.fill(Err(FetchError::new("timeout".to_owned())));
    slot.fill(Ok(5));
    assert_eq!(slot.get().as_ref().unwrap_err().message, "timeout");
}

#[test]
fn a_prefilled_slot_never_fetches() {
    let slot: LazySlot<i32> = LazySlot::from_value(7);
    assert!(slot.is_filled());
    assert_eq!(slot.get().as_ref().unwrap(), &7);
}

#[test]
fn two_first_reads_share_one_fetch() {
    // Two sibling fields read the same unfetched view; the slot serializes
    // them so only the first runs the fetch.
    let mut node = Challenge::new(3);
    let mut fetches: usize = 0;
    for _ in 0..2 {
        if node.needs_fetch() {
            fetches += 1;
            node.fill(Ok(challenge(3)));
        }
        assert_eq!(node.title().unwrap().as_str(), "title-3");
    }
    assert_eq!(fetches, 1);
}

#[test]
fn challenge_fields_come_from_the_memoized_record() {
    let node = Challenge::from_model(challenge(3));
    assert!(!node.needs_fetch());
    assert_eq!(node.db_id, 3);
    assert_eq!(node.title().unwrap().as_str(), "title-3");
    assert_eq!(node.body().unwrap().as_str(), "body-3");
    assert_eq!(node.created_at().unwrap(), 1_003);
    assert_eq!(node.updated_at().unwrap(), None);
    assert_eq!(node.deleted_at().unwrap(), None);
    let author = node.author().unwrap();
    assert_eq!(author.db_id, 103);
    assert!(author.needs_fetch());
    let ct = node.challenge_type().unwrap();
    assert_eq!(ct.name().as_str(), "code-golf");
}

#[test]
fn a_failed_view_fetch_is_shared_by_every_field() {
    let mut node = Challenge::new(4);
    node.fill(Err(FetchError::new("boom".to_owned())));
    assert_eq!(node.title().unwrap_err().message, "boom");
    match node.author() {
        Err(e) => assert_eq!(e.message, "boom"),
        Ok(_) => panic!("the author read should share the fetch failure"),
    }
}

#[test]
fn post_resolution_tries_the_challenge_subtype_first() {
    match resolve_post(3, Some(challenge(3)), None) {
        Ok(PostValue::Challenge(c)) => assert_eq!(c.db_id, 3),
        other => panic!("expected the challenge subtype, got {:?}", other.is_ok()),
    }
    // Even when both lookups succeed, the challenge wins.
    match resolve_post(3, Some(challenge(3)), Some(response(3, 1))) {
        Ok(PostValue::Challenge(c)) => assert_eq!(c.db_id, 3),
        other => panic!("expected the challenge subtype, got {:?}", other.is_ok()),
    }
}

#[test]
fn post_resolution_falls_back_to_the_response_subtype() {
    match resolve_post(6, None, Some(response(6, 3))) {
        Ok(PostValue::Response(n)) => {
            assert_eq!(n.db_id, 6);
            assert_eq!(n.challenge_id().unwrap(), 3);
            assert_eq!(n.code().unwrap().as_str(), "main = 0");
        },
        other => panic!("expected the response subtype, got {:?}", other.is_ok()),
    }
}

#[test]
fn a_post_matching_no_subtype_is_unknown() {
    match resolve_post(9, None, None) {
        Err(err) => assert_eq!(err.post_id, 9),
        Ok(_) => panic!("a post matching no subtype should be rejected"),
    }
}
