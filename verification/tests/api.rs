use license_service::api::{
    activate, add_license, delete_license, get_all_licenses, get_license, renew_license, Reply,
    STATUS_BAD_REQUEST, STATUS_INTERNAL_SERVER_ERROR, STATUS_NOT_FOUND, STATUS_OK,
};
use license_service::models::api_models::{ApiResponse, LicenseData, RenewData};
use license_service::models::errors::MyError;
use license_service::models::license::License;
use license_service::store::{DeleteResult, StoreFault, UpdateResult};

const ALL_ERRORS: [MyError; 7] = [
    MyError::DatabaseError,
    MyError::LicenseNotFound,
    MyError::LicenseDoesNotExist,
    MyError::LicenseNotActivated,
    MyError::LicenseExpired,
    MyError::LicenseAlreadyActive,
    MyError::InvalidDuration,
];

fn failure<T>(status: u16, msg: &str) -> Reply<T> {
    Reply { status, body: ApiResponse { msg: Some(msg.to_string()), data: None } }
}

fn success<T>(msg: &str, data: T) -> Reply<T> {
    Reply { status: 200, body: ApiResponse { msg: Some(msg.to_string()), data: Some(data) } }
}

fn record() -> License {
    License::new("A".to_string(), "W".to_string())
}

#[test]
fn status_values() {
    assert_eq!(STATUS_OK, 200);
    assert_eq!(STATUS_BAD_REQUEST, 400);
    assert_eq!(STATUS_NOT_FOUND, 404);
    assert_eq!(STATUS_INTERNAL_SERVER_ERROR, 500);
}

#[test]
fn lookup_replies() {
    assert_eq!(get_license(Ok(record())), success("success", record()));
    for e in ALL_ERRORS {
        assert_eq!(get_license::<License>(Err(e)), failure(500, "Not found"));
    }
}

#[test]
fn creation_replies() {
    assert_eq!(add_license(Ok(record())), success("Successfully inserted", record()));
    for e in ALL_ERRORS {
        assert_eq!(add_license::<License>(Err(e)), failure(500, "Error happened when inserting data"));
    }
}

#[test]
fn renewal_replies() {
    let done = UpdateResult { matched_count: 1, modified_count: 1 };
    assert_eq!(renew_license(Ok(done)), success("Success", done));
    assert_eq!(
        renew_license::<UpdateResult>(Err(MyError::LicenseNotActivated)),
        failure(500, "License hasn't been activated yet")
    );
    assert_eq!(renew_license::<UpdateResult>(Err(MyError::DatabaseError)), failure(500, "Database error"));
    assert_eq!(
        renew_license::<UpdateResult>(Err(MyError::LicenseExpired)),
        failure(400, "License expired. Can not renew")
    );
    assert_eq!(renew_license::<UpdateResult>(Err(MyError::LicenseNotFound)), failure(404, "License not found"));
    assert_eq!(renew_license::<UpdateResult>(Err(MyError::LicenseDoesNotExist)), failure(500, "Internal error"));
    assert_eq!(renew_license::<UpdateResult>(Err(MyError::LicenseAlreadyActive)), failure(500, "Internal error"));
    assert_eq!(renew_license::<UpdateResult>(Err(MyError::InvalidDuration)), failure(500, "Internal error"));
}

#[test]
fn removal_replies() {
    let done = DeleteResult { deleted_count: 1 };
    assert_eq!(delete_license(Ok(done)), success("Success", done));
    assert_eq!(
        delete_license::<DeleteResult>(Err(MyError::LicenseDoesNotExist)),
        failure(400, "License does not exist")
    );
    assert_eq!(delete_license::<DeleteResult>(Err(MyError::DatabaseError)), failure(500, "Database error"));
    assert_eq!(delete_license::<DeleteResult>(Err(MyError::LicenseNotFound)), failure(500, "Not found"));
    assert_eq!(delete_license::<DeleteResult>(Err(MyError::LicenseNotActivated)), failure(500, "Not found"));
    assert_eq!(delete_license::<DeleteResult>(Err(MyError::LicenseExpired)), failure(500, "Not found"));
    assert_eq!(delete_license::<DeleteResult>(Err(MyError::LicenseAlreadyActive)), failure(500, "Not found"));
    assert_eq!(delete_license::<DeleteResult>(Err(MyError::InvalidDuration)), failure(500, "Not found"));
}

#[test]
fn listing_replies() {
    let records = vec![record(), License::new("B".to_string(), "W".to_string())];
    assert_eq!(get_all_licenses::<_, StoreFault>(Ok(records.clone())), success("success", records));
    assert_eq!(get_all_licenses::<Vec<License>, StoreFault>(Ok(Vec::new())), success("success", Vec::new()));
    assert_eq!(get_all_licenses::<Vec<License>, _>(Err(StoreFault)), failure(500, "Not found"));
}

#[test]
fn activation_replies() {
    let done = UpdateResult { matched_count: 1, modified_count: 1 };
    assert_eq!(activate(Ok(done)), success("Success", done));
    assert_eq!(
        activate::<UpdateResult>(Err(MyError::InvalidDuration)),
        failure(400, "Invalid duration. It should be greater than 0")
    );
    assert_eq!(
        activate::<UpdateResult>(Err(MyError::LicenseAlreadyActive)),
        failure(400, "License has already been activated")
    );
    assert_eq!(activate::<UpdateResult>(Err(MyError::LicenseNotFound)), failure(404, "License not found"));
    assert_eq!(activate::<UpdateResult>(Err(MyError::DatabaseError)), failure(500, "Database error"));
    assert_eq!(activate::<UpdateResult>(Err(MyError::LicenseDoesNotExist)), failure(500, "Internal Error Happened"));
    assert_eq!(activate::<UpdateResult>(Err(MyError::LicenseNotActivated)), failure(500, "Internal Error Happened"));
    assert_eq!(activate::<UpdateResult>(Err(MyError::LicenseExpired)), failure(500, "Internal Error Happened"));
}

#[test]
fn replies_pass_any_payload_through() {
    assert_eq!(activate(Ok("payload")), success("Success", "payload"));
    assert_eq!(get_all_licenses::<u8, &str>(Err("cursor")), failure(500, "Not found"));
}

#[test]
fn request_bodies_hold_their_fields() {
    let named = LicenseData { license: "A".to_string() };
    assert_eq!(named.license, "A");
    let renewal = RenewData { license: "A".to_string(), days: 10 };
    assert_eq!(renewal.license, "A");
    assert_eq!(renewal.days, 10);
}
