use messaging_models::email::{
    AddDomainRequestBody, BulkStatus, DkimKeyLength, GetBulksQueryParameters,
    GetDeliveryReportsQueryParameters, GetDomainsQueryParameters, GetLogsQueryParameters,
    RescheduleRequestBody, SendRequestBody, UpdateScheduledStatusRequestBody,
    UpdateTrackingRequestBody, ValidateAddressRequestBody,
};
use messaging_models::validation::Constraint;

pub fn get_dummy_send_email_request_body() -> SendRequestBody {
    let mut request = SendRequestBody::new("some@company.com".to_string());
    request.from = Some("John Doe <john@company.com>".to_string());
    request.cc = Some("one@company.com,two@company.com".to_string());
    request.bcc = Some("three@company.com,four@some.com".to_string());
    request.subject = Some("Some subject".to_string());
    request.text = Some("Some text".to_string());
    request.html = Some("<p>Some text</p>".to_string());
    request.amp_html = Some("<p>Some text</p>".to_string());
    request.template_id = Some(2);
    request.attachment = Some("../../../tests/image.png".to_string());
    request.inline_image = Some("../../../tests/image.png".to_string());
    request.notify_url = Some("https://some.url".to_string());
    request.intermediate_report = Some(true);
    request.notify_content_type = Some("application/json".to_string());
    request.callback_data = Some("some data".to_string());
    request.track = Some(true);
    request.track_clicks = Some(true);
    request.track_opens = Some(true);
    request.tracking_url = Some("https://some.url".to_string());
    request.bulk_id = Some("some-bulk-id".to_string());
    request.message_id = Some("some-message-id".to_string());
    request.reply_to = Some("some-reply-to@company.com".to_string());
    request.default_placeholders = Some(r#"defaultPlaceholders={"ph1": "Success"}"#.to_string());
    request.preserve_recipients = Some(true);
    request.send_at = Some("2020-01-01 00:00:00".to_string());
    request.landing_page_placeholders =
        Some(r#"landingPagePlaceholders={"ph1": "Success"}"#.to_string());
    request.landing_page_id = Some("some-landing-page-id".to_string());

    request
}

#[test]
fn test_send_request_valid() {
    let request_body = SendRequestBody::new("someone@company.com".to_string());

    assert!(request_body.validate().is_ok());
}

#[test]
fn test_send_request_valid_full() {
    let request_body = get_dummy_send_email_request_body();

    assert!(request_body.validate().is_ok());
}

#[test]
fn test_send_request_body_long_subject() {
    let mut request_body = get_dummy_send_email_request_body();
    request_body.subject = Some("S".repeat(151));

    assert!(request_body.validate().is_err());
}

#[test]
fn tets_send_request_body_long_callback_data() {
    let mut request_body = get_dummy_send_email_request_body();
    request_body.callback_data = Some("C".repeat(4001));

    assert!(request_body.validate().is_err());
}

#[test]
fn test_send_request_body_subject_at_limit() {
    let mut request_body = get_dummy_send_email_request_body();
    request_body.subject = Some("S".repeat(150));

    assert!(request_body.validate().is_ok());
}

#[test]
fn test_send_request_body_callback_data_at_limit() {
    let mut request_body = get_dummy_send_email_request_body();
    request_body.callback_data = Some("C".repeat(4000));

    assert!(request_body.validate().is_ok());
}

#[test]
fn test_send_request_body_empty_recipient() {
    let request_body = SendRequestBody::new("".to_string());

    let errors = request_body.validate().unwrap_err();
    assert_eq!(errors.issues.len(), 1);
    assert_eq!(errors.issues[0].field, "to");
    assert_eq!(errors.issues[0].constraint, Constraint::LengthMin(1));
}

#[test]
fn test_send_request_body_bad_notify_url() {
    let mut request_body = get_dummy_send_email_request_body();
    request_body.notify_url = Some("not a url".to_string());

    let errors = request_body.validate().unwrap_err();
    assert_eq!(errors.issues.len(), 1);
    assert_eq!(errors.issues[0].field, "notify_url");
    assert_eq!(errors.issues[0].constraint, Constraint::Url);
}

#[test]
fn test_send_request_body_bad_tracking_url() {
    let mut request_body = get_dummy_send_email_request_body();
    request_body.tracking_url = Some("httpnothing".to_string());

    let errors = request_body.validate().unwrap_err();
    assert_eq!(errors.issues.len(), 1);
    assert_eq!(errors.issues[0].field, "tracking_url");
}

#[test]
fn test_send_request_body_reports_every_violation() {
    let mut request_body = SendRequestBody::new("".to_string());
    request_body.subject = Some("S".repeat(151));
    request_body.callback_data = Some("C".repeat(4001));

    let errors = request_body.validate().unwrap_err();
    assert_eq!(errors.issues.len(), 3);
    assert_eq!(errors.issues[0].field, "to");
    assert_eq!(errors.issues[1].field, "subject");
    assert_eq!(errors.issues[2].field, "callback_data");
}

#[test]
fn test_get_bulks_query_parameters() {
    assert!(GetBulksQueryParameters::new("some-bulk-id").validate().is_ok());
    assert!(GetBulksQueryParameters::new("").validate().is_err());
}

#[test]
fn test_reschedule_request_body() {
    assert!(RescheduleRequestBody::new("2022-10-00T00:00:00").validate().is_ok());
    assert!(RescheduleRequestBody::new("").validate().is_err());
}

#[test]
fn test_update_scheduled_status_request_body() {
    let request_body = UpdateScheduledStatusRequestBody::new(BulkStatus::PAUSED);

    assert!(request_body.validate().is_ok());
}

#[test]
fn test_email_delivery_reports_query_parameters() {
    let mut parameters = GetDeliveryReportsQueryParameters::new();
    parameters.limit = Some(10);

    assert!(parameters.validate().is_ok());
}

#[test]
fn test_get_logs_query_parameters_default() {
    let parameters = GetLogsQueryParameters::default();

    assert!(parameters.message_id.is_none());
    assert!(parameters.limit.is_none());
    assert!(parameters.validate().is_ok());
}

#[test]
fn test_validate_address_request_body() {
    assert!(ValidateAddressRequestBody::new("someone@company.com").validate().is_ok());
    assert!(ValidateAddressRequestBody::new("").validate().is_err());
}

#[test]
fn test_get_domains_query_parameters_ranges() {
    let mut parameters = GetDomainsQueryParameters::new();
    assert!(parameters.validate().is_ok());

    parameters.size = Some(1);
    parameters.page = Some(1);
    assert!(parameters.validate().is_ok());

    parameters.size = Some(20);
    assert!(parameters.validate().is_ok());

    parameters.size = Some(21);
    let errors = parameters.validate().unwrap_err();
    assert_eq!(errors.issues[0].field, "size");
    assert_eq!(errors.issues[0].constraint, Constraint::RangeMax(20));

    parameters.size = Some(0);
    assert!(parameters.validate().is_err());

    parameters.size = Some(10);
    parameters.page = Some(0);
    assert!(parameters.validate().is_err());
}

#[test]
fn test_add_domain_request_body() {
    let mut request_body = AddDomainRequestBody::new("example.com");
    assert!(request_body.validate().is_ok());

    request_body.dkim_key_length = Some(DkimKeyLength::L2048);
    assert!(request_body.validate().is_ok());

    assert!(AddDomainRequestBody::new("").validate().is_err());
}

#[test]
fn test_update_tracking_request_body_default() {
    let request_body = UpdateTrackingRequestBody::default();

    assert!(request_body.opens.is_none());
    assert!(request_body.clicks.is_none());
    assert!(request_body.unsubscribe.is_none());
    assert!(request_body.validate().is_ok());
}

#[test]
fn test_bulk_status_tokens() {
    assert_eq!(BulkStatus::PENDING.token(), "PENDING");
    assert_eq!(BulkStatus::from_token("PROCESSING").unwrap(), BulkStatus::PROCESSING);
    assert_eq!(BulkStatus::from_token("FAILED").unwrap(), BulkStatus::FAILED);
    assert!(BulkStatus::from_token("DONE").is_err());
    assert!(BulkStatus::from_token("").is_err());
}

#[test]
fn test_dkim_key_length_tokens() {
    assert_eq!(DkimKeyLength::L1024.bits(), 1024);
    assert_eq!(DkimKeyLength::L2048.bits(), 2048);
    assert_eq!(DkimKeyLength::L1024.token(), "1024");
    assert_eq!(DkimKeyLength::from_token("2048").unwrap(), DkimKeyLength::L2048);
    assert!(DkimKeyLength::from_token("4096").is_err());
}

#[test]
fn test_email_minimal_serialization() {
    let request_body = SendRequestBody::new("someone@company.com".to_string());

    assert_eq!(request_body.to_json(), r#"{"to":"someone@company.com"}"#);
}

#[test]
fn test_email_request_serialization_set_fields() {
    let mut request_body = SendRequestBody::new("someone@company.com".to_string());
    request_body.subject = Some("Some subject".to_string());
    request_body.template_id = Some(2);
    request_body.track = Some(false);

    assert_eq!(
        request_body.to_json(),
        r#"{"to":"someone@company.com","subject":"Some subject","templateId":2,"track":false}"#
    );
}

#[test]
fn test_update_tracking_serialization_renames_opens() {
    let mut request_body = UpdateTrackingRequestBody::new();
    request_body.opens = Some(true);
    request_body.clicks = Some(false);

    assert_eq!(request_body.to_json(), r#"{"open":true,"clicks":false}"#);

    assert_eq!(UpdateTrackingRequestBody::new().to_json(), r#"{}"#);
}
