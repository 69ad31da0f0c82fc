use axtell_server::cursor::NodeId;
use axtell_server::errors::RelayError;
use axtell_server::errors::ServiceError;
use axtell_server::models;
use axtell_server::models::SchemaModel;
use axtell_server::models::SchemaTable;
use axtell_server::nodes::NodeValue;
use axtell_server::query::Query;
use axtell_server::repo::RangeQuery;
use axtell_server::repo::RowOrder;
use axtell_server::repo::Store;
use axtell_server::repo::find_by_id;
use axtell_server::repo::find_by_id_set;
use axtell_server::repo::find_by_range;

fn post(id: i32) -> models::Post {
    models::Post {
        id,
        title: format!("title-{id}"),
        body: format!("body-{id}"),
        user_id: 1,
        created_at: 1_000 + id as i64,
        updated_at: None,
        deleted_at: None,
    }
}

fn challenge(id: i32) -> models::Challenge {
    models::Challenge {
        post: post(id),
        data: models::ChallengeData { post_id: id, challenge_type_id: 2 },
        challenge_type: models::ChallengeType {
            id: 2,
            name: "code-golf".to_owned(),
            description: "shortest program wins".to_owned(),
        },
    }
}

fn user(id: i32) -> models::User {
    models::User {
        id,
        name: format!("user-{id}"),
        profile: String::new(),
        created_at: 1_000 + id as i64,
        updated_at: None,
        deleted_at: None,
    }
}

fn store_with_five_challenges() -> Store {
    let mut store = Store::new();
    for id in 1..=5 {
        store.challenges.push(challenge(id));
    }
    store.users.push(user(1));
    store.users.push(user(2));
    store.challenge_types.push(models::ChallengeType {
        id: 2,
        name: "code-golf".to_owned(),
        description: "shortest program wins".to_owned(),
    });
    store
}

#[test]
fn newest_challenges_first_two_of_five() {
    let store = store_with_five_challenges();
    let conn = Query::newest_challenges(&store, Some(2), None, None, None).unwrap();
    assert_eq!(conn.edges.len(), 2);
    assert_eq!(conn.edges[0].node.db_id, 5);
    assert_eq!(conn.edges[1].node.db_id, 4);
    assert!(conn.page_info.has_next_page);
    assert!(!conn.page_info.has_previous_page);
    // The boundary cursors decode back to the boundary nodes.
    let start = conn.page_info.start_cursor.unwrap();
    let end = conn.page_info.end_cursor.unwrap();
    assert_eq!(NodeId::decode(&start.encode()), Ok(NodeId(SchemaTable::Challenges, 5)));
    assert_eq!(NodeId::decode(&end.encode()), Ok(NodeId(SchemaTable::Challenges, 4)));
}

#[test]
fn newest_challenges_pages_through_with_cursors() {
    let store = store_with_five_challenges();
    // Everything strictly older than challenge 4: ids 1..3, newest first.
    let before = Some(NodeId(SchemaTable::Challenges, 4));
    let conn = Query::newest_challenges(&store, Some(10), None, None, before).unwrap();
    let ids: Vec<i32> = conn.edges.iter().map(|e| e.node.db_id).collect();
    assert_eq!(ids, vec![3, 2, 1]);
    assert!(!conn.page_info.has_next_page);
}

#[test]
fn newest_challenges_rejects_negative_arguments() {
    let store = store_with_five_challenges();
    assert!(matches!(
        Query::newest_challenges(&store, Some(-1), None, None, None),
        Err(RelayError::InvalidArgument)
    ));
    assert!(matches!(
        Query::newest_challenges(&store, None, None, Some(-2), None),
        Err(RelayError::InvalidArgument)
    ));
}

#[test]
fn newest_challenges_rejects_cursors_of_other_collections() {
    let store = store_with_five_challenges();
    let foreign = Some(NodeId(SchemaTable::Users, 3));
    assert!(matches!(
        Query::newest_challenges(&store, Some(2), foreign, None, None),
        Err(RelayError::InvalidArgument)
    ));
    assert!(matches!(
        Query::newest_challenges(&store, Some(2), None, None, foreign),
        Err(RelayError::InvalidArgument)
    ));
}

#[test]
fn node_lookup_dispatches_on_the_collection_tag() {
    let store = store_with_five_challenges();
    match Query::node(&store, NodeId(SchemaTable::Users, 2)) {
        Some(NodeValue::User(u)) => assert_eq!(u.db_id, 2),
        other => panic!("expected a user node, got {:?}", other.is_some()),
    }
    match Query::node(&store, NodeId(SchemaTable::Challenges, 3)) {
        Some(NodeValue::Challenge(c)) => {
            assert_eq!(c.db_id, 3);
            assert_eq!(c.title().unwrap().as_str(), "title-3");
        },
        other => panic!("expected a challenge node, got {:?}", other.is_some()),
    }
    match Query::node(&store, NodeId(SchemaTable::ChallengeTypes, 2)) {
        Some(NodeValue::ChallengeType(t)) => assert_eq!(t.name().as_str(), "code-golf"),
        other => panic!("expected a challenge type node, got {:?}", other.is_some()),
    }
    // An id with no row is an absent result, not a failure.
    assert!(Query::node(&store, NodeId(SchemaTable::Comments, 99)).is_none());
    // A challenge-type id outside the stored width finds nothing.
    assert!(Query::node(&store, NodeId(SchemaTable::ChallengeTypes, 40_000)).is_none());
}

#[test]
fn range_queries_default_their_bounds_and_limit() {
    let q = RangeQuery::new(None, None, None, RowOrder::IdAscending);
    assert_eq!(q.after_id, 0);
    assert_eq!(q.before_id, i32::MAX);
    assert_eq!(q.limit, 25);
    let q = RangeQuery::new(Some(3), Some(9), Some(6), RowOrder::NewestFirst);
    assert_eq!((q.after_id, q.before_id, q.limit), (3, 9, 6));
}

#[test]
fn range_lookup_applies_exclusive_bounds_order_and_limit() {
    let rows: Vec<models::User> = (1..=30).map(user).collect();
    // Exclusive bounds: 5 and 10 themselves stay out.
    let q = RangeQuery::new(Some(5), Some(10), Some(25), RowOrder::IdAscending);
    let got = find_by_range(&rows, &q);
    let ids: Vec<i32> = got.iter().map(|u| u.id).collect();
    assert_eq!(ids, vec![6, 7, 8, 9]);
    // The default limit caps a large answer at 25 rows.
    let q = RangeQuery::new(None, None, None, RowOrder::IdAscending);
    let got = find_by_range(&rows, &q);
    assert_eq!(got.len(), 25);
    assert_eq!(got[0].id, 1);
    assert_eq!(got[24].id, 25);
    // Newest first walks the same range from the other end.
    let q = RangeQuery::new(Some(5), Some(10), Some(3), RowOrder::NewestFirst);
    let got = find_by_range(&rows, &q);
    let ids: Vec<i32> = got.iter().map(|u| u.id).collect();
    assert_eq!(ids, vec![9, 8, 7]);
}

#[test]
fn id_set_lookup_skips_absent_ids_silently() {
    let rows: Vec<models::User> = (1..=5).map(user).collect();
    let pairs = find_by_id_set(&rows, &vec![1, 3, 99]);
    let keys: Vec<i32> = pairs.iter().map(|p| p.0).collect();
    assert_eq!(keys, vec![1, 3]);
    assert_eq!(pairs[1].1.name, "user-3");
}

#[test]
fn point_lookup_finds_exactly_the_keyed_row() {
    let rows: Vec<models::User> = (1..=5).map(user).collect();
    assert_eq!(find_by_id(&rows, 4).unwrap().id, 4);
    assert!(find_by_id(&rows, 6).is_none());
}

#[test]
fn table_find_wraps_the_row_of_its_own_collection() {
    let store = store_with_five_challenges();
    match SchemaTable::Challenges.find(&store, 2) {
        Some(SchemaModel::Challenge(c)) => assert_eq!(c.post.id, 2),
        other => panic!("expected a challenge row, got {:?}", other.is_some()),
    }
    match SchemaTable::Users.find(&store, 1) {
        Some(SchemaModel::User(u)) => assert_eq!(u.id, 1),
        other => panic!("expected a user row, got {:?}", other.is_some()),
    }
    assert!(SchemaTable::Responses.find(&store, 1).is_none());
    assert!(SchemaTable::Comments.find(&store, 1).is_none());
}

#[test]
fn api_version_is_stable() {
    assert_eq!(Query::api_version(), "0.1");
}

#[test]
fn service_errors_describe_themselves() {
    assert_eq!(ServiceError::InternalServerError.message(), "Internal Server Error");
    assert_eq!(ServiceError::BadRequest("bad cursor".to_owned()).message(), "bad cursor");
    assert_eq!(ServiceError::JWKSFetchError.message(), "JWKSFetchError");
}
