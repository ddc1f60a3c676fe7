use rental_api::health_check;
use rental_api::http::{
    cancel_rental_reply, create_rental_status, i64_dec_string, list_status, return_dvd_reply,
    DbFailure,
};

#[test]
fn health_endpoint_marker() {
    assert_eq!(health_check(), "API is running!");
}

#[test]
fn decimal_rendering_exact() {
    assert_eq!(i64_dec_string(0), "0");
    assert_eq!(i64_dec_string(7), "7");
    assert_eq!(i64_dec_string(10), "10");
    assert_eq!(i64_dec_string(999999999), "999999999");
    assert_eq!(i64_dec_string(-123), "-123");
    assert_eq!(i64_dec_string(i64::MAX), "9223372036854775807");
    assert_eq!(i64_dec_string(i64::MIN), "-9223372036854775808");
}

#[test]
fn return_reply_not_found_is_404_not_500() {
    let r = return_dvd_reply(999999999, Ok(0));
    assert_eq!(r.status, 404);
    assert_eq!(r.body, "Rental with ID 999999999 not found");
}

#[test]
fn return_reply_success_confirms() {
    let r = return_dvd_reply(7, Ok(1));
    assert_eq!(r.status, 200);
    assert_eq!(r.body, "Rental 7 returned successfully");
}

#[test]
fn return_reply_downstream_failure_is_500() {
    let r = return_dvd_reply(7, Err(DbFailure));
    assert_eq!(r.status, 500);
    assert_eq!(r.body, "Failed to return DVD.");
}

#[test]
fn cancel_reply_not_found_is_404_not_500() {
    let r = cancel_rental_reply(999999999, Ok(0));
    assert_eq!(r.status, 404);
    assert_eq!(r.body, "Rental with ID 999999999 not found");
}

#[test]
fn cancel_reply_success_is_empty_204() {
    let r = cancel_rental_reply(3, Ok(1));
    assert_eq!(r.status, 204);
    assert_eq!(r.body, "");
}

#[test]
fn cancel_reply_downstream_failure_is_500() {
    let r = cancel_rental_reply(3, Err(DbFailure));
    assert_eq!(r.status, 500);
    assert_eq!(r.body, "Failed to cancel rental.");
}

#[test]
fn create_status_codes() {
    assert_eq!(create_rental_status(true), 201);
    assert_eq!(create_rental_status(false), 500);
}

#[test]
fn list_status_codes() {
    assert_eq!(list_status(true), 200);
    assert_eq!(list_status(false), 500);
}
