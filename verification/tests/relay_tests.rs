use axtell_server::cursor::NodeId;
use axtell_server::errors::RelayError;
use axtell_server::models::SchemaTable;
use axtell_server::nodes::User;
use axtell_server::relay::RelayConnectionEdge;
use axtell_server::relay::RelayConnectionPageInfo;
use axtell_server::relay::RelayEdge;
use axtell_server::relay::build_connection;
use axtell_server::relay::check_ge_zero;
use axtell_server::relay::relay_connection_closure_args;

fn candidates(ids: &[i32]) -> Vec<User> {
    ids.iter().map(|id| User::new(*id)).collect()
}

fn edge_ids(edges: &[RelayEdge<User>]) -> Vec<i32> {
    edges.iter().map(|e| e.node.db_id).collect()
}

fn page(
    first: Option<i32>,
    last: Option<i32>,
    ids: &[i32],
) -> (RelayConnectionPageInfo, Vec<RelayEdge<User>>) {
    build_connection(first, last, candidates(ids)).unwrap()
}

#[test]
fn first_zero_keeps_nothing_but_reports_a_next_page() {
    let (info, edges) = page(Some(0), None, &[1, 2, 3]);
    assert!(edges.is_empty());
    assert!(info.has_next_page);
    assert!(!info.has_previous_page);
    assert_eq!(info.start_cursor, None);
    assert_eq!(info.end_cursor, None);
}

#[test]
fn first_zero_on_empty_input_reports_no_next_page() {
    let (info, edges) = page(Some(0), None, &[]);
    assert!(edges.is_empty());
    assert!(!info.has_next_page);
}

#[test]
fn first_three_of_ten() {
    let (info, edges) = page(Some(3), None, &[1, 2, 3, 4, 5, 6, 7, 8, 9, 10]);
    assert_eq!(edge_ids(&edges), vec![1, 2, 3]);
    assert!(info.has_next_page);
    assert!(!info.has_previous_page);
}

#[test]
fn last_three_of_ten() {
    let (info, edges) = page(None, Some(3), &[1, 2, 3, 4, 5, 6, 7, 8, 9, 10]);
    assert_eq!(edge_ids(&edges), vec![8, 9, 10]);
    assert!(!info.has_next_page);
    assert!(info.has_previous_page);
}

#[test]
fn first_five_then_last_two_of_ten() {
    let (info, edges) = page(Some(5), Some(2), &[1, 2, 3, 4, 5, 6, 7, 8, 9, 10]);
    assert_eq!(edge_ids(&edges), vec![4, 5]);
    assert!(info.has_next_page);
    assert!(info.has_previous_page);
}

#[test]
fn both_absent_returns_everything_as_one_page() {
    let (info, edges) = page(None, None, &[4, 5, 6]);
    assert_eq!(edge_ids(&edges), vec![4, 5, 6]);
    assert!(!info.has_next_page);
    assert!(!info.has_previous_page);
    assert_eq!(info.start_cursor, Some(NodeId(SchemaTable::Users, 4)));
    assert_eq!(info.end_cursor, Some(NodeId(SchemaTable::Users, 6)));
}

#[test]
fn slicing_a_sliced_page_again_changes_nothing() {
    let (_, edges) = page(Some(5), Some(2), &[1, 2, 3, 4, 5, 6, 7, 8, 9, 10]);
    let once = edge_ids(&edges);
    let (_, again) = page(Some(5), Some(2), &once);
    assert_eq!(edge_ids(&again), once);
}

#[test]
fn sentinel_row_signals_the_next_page() {
    // A fetch limit of first + 1 returned one extra candidate.
    let (info, edges) = page(Some(3), None, &[1, 2, 3, 4]);
    assert_eq!(edge_ids(&edges), vec![1, 2, 3]);
    assert!(info.has_next_page);
}

#[test]
fn negative_arguments_are_rejected() {
    assert!(matches!(
        build_connection(Some(-1), None, candidates(&[1])),
        Err(RelayError::InvalidArgument)
    ));
    assert!(matches!(
        build_connection(None, Some(-7), candidates(&[1])),
        Err(RelayError::InvalidArgument)
    ));
    assert_eq!(check_ge_zero(3), Ok(3));
    assert_eq!(check_ge_zero(-3), Err(RelayError::InvalidArgument));
}

#[test]
fn edge_cursors_derive_from_node_identity() {
    let (_, edges) = page(Some(2), None, &[11, 12, 13]);
    assert_eq!(edges[0].cursor(), NodeId(SchemaTable::Users, 11));
    assert_eq!(edges[1].cursor(), NodeId(SchemaTable::Users, 12));
    assert_eq!(edges[0].node().db_id, 11);
}

#[test]
fn closure_args_translate_cursor_bounds_and_limit() {
    let after = Some(NodeId(SchemaTable::Challenges, 4));
    let before = Some(NodeId(SchemaTable::Challenges, 9));
    assert_eq!(
        relay_connection_closure_args(Some(2), after, before),
        (Some(4), Some(9), Some(3))
    );
    assert_eq!(relay_connection_closure_args(None, None, None), (None, None, None));
}
