use swimbot::api::{
    any_role_held, check_steamid_response, construct_response, driver_stats_response,
    fetch_score_response, heartbeat_response, insert_score_response, rejection_response,
    score_acceptable, InsertOutcome, PlaceholderError, RejectionKind, MAX_CUTUP_SCORE,
};

#[test]
fn role_held_when_any_matches() {
    assert!(any_role_held(&vec![10, 20], &vec![99, 20]));
    assert!(!any_role_held(&vec![10, 20], &vec![99, 21]));
    assert!(!any_role_held(&Vec::new(), &vec![99]));
    assert!(!any_role_held(&vec![10], &Vec::new()));
}

#[test]
fn check_authorized() {
    let r = check_steamid_response(&Some(vec![5, 7]), &vec![7]);
    assert_eq!(r.status, "OK");
    assert_eq!(r.message, "Authorized");
}

#[test]
fn check_unauthorized_without_matching_role() {
    let r = check_steamid_response(&Some(vec![5]), &vec![7]);
    assert_eq!(r.status, "UNAUTHORIZED");
    assert_eq!(r.message, "Not authorized");
}

#[test]
fn check_unauthorized_without_member() {
    let r = check_steamid_response(&None, &vec![7]);
    assert_eq!(r.status, "UNAUTHORIZED");
    assert_eq!(r.message, "Not authorized");
}

#[test]
fn fetch_score_present() {
    assert_eq!(fetch_score_response(Some(123)).data, 123);
}

#[test]
fn fetch_score_missing_is_zero() {
    assert_eq!(fetch_score_response(None).data, 0);
}

#[test]
fn score_bound() {
    assert!(score_acceptable(MAX_CUTUP_SCORE));
    assert!(score_acceptable(0));
    assert!(score_acceptable(-5));
    assert!(!score_acceptable(MAX_CUTUP_SCORE + 1));
}

#[test]
fn insert_responses() {
    let too_high = insert_score_response(InsertOutcome::ScoreTooHigh);
    assert_eq!(too_high.status, "ERROR");
    assert_eq!(too_high.message, "Score too high");
    let stored = insert_score_response(InsertOutcome::Stored);
    assert_eq!(stored.status, "OK");
    assert_eq!(stored.message, "Inserted");
    let failed = insert_score_response(InsertOutcome::StoreFailed);
    assert_eq!(failed.status, "ERROR");
    assert_eq!(failed.message, "Failed to insert");
}

#[test]
fn driver_stats_responses() {
    let ok = driver_stats_response(true);
    assert_eq!(ok.status, "OK");
    assert_eq!(ok.message, "Driver stats updated");
    let err = driver_stats_response(false);
    assert_eq!(err.status, "ERROR");
    assert_eq!(err.message, "Failed to update driver stats");
}

#[test]
fn heartbeat_is_alive() {
    let r = heartbeat_response();
    assert_eq!(r.status, "OK");
    assert_eq!(r.message, "Alive");
}

#[test]
fn constructed_status_is_decimal_code() {
    let r = construct_response(418, "teapot".to_string());
    assert_eq!(r.status, "418");
    assert_eq!(r.message, "teapot");
}

#[test]
fn rejection_mapping() {
    let (r, code) = rejection_response(RejectionKind::NotFound);
    assert_eq!(code, 404);
    assert_eq!(r.status, "404");
    assert_eq!(r.message, "Not Found");

    let (r, code) = rejection_response(RejectionKind::Discord);
    assert_eq!(code, 500);
    assert_eq!(r.message, "Discord error encountered");

    let (r, code) = rejection_response(RejectionKind::Database("row missing".to_string()));
    assert_eq!(code, 417);
    assert_eq!(r.status, "417");
    assert_eq!(r.message, "row missing");

    let (r, code) = rejection_response(RejectionKind::MethodNotAllowed);
    assert_eq!(code, 405);
    assert_eq!(r.message, "Method not allowed");

    let (r, code) = rejection_response(RejectionKind::BadRequest);
    assert_eq!(code, 400);
    assert_eq!(r.message, "Bad request");

    let (r, code) = rejection_response(RejectionKind::UnsupportedMediaType);
    assert_eq!(code, 415);
    assert_eq!(r.message, "Unsupported media type");

    let (r, code) = rejection_response(RejectionKind::Internal);
    assert_eq!(code, 500);
    assert_eq!(r.status, "500");
    assert_eq!(r.message, "Internal Server Error");
}

#[test]
fn placeholder_error_text() {
    assert_eq!(PlaceholderError {}.message(), "Placeholder error");
}
