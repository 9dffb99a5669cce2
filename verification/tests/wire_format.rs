use messaging_models::sms::{
    DeliveryDay, DeliveryTime, DeliveryTimeWindow, Destination, IndiaDlt, Message,
    RegionalOptions, SendRequestBody, SpeedLimit, TimeUnit, TurkeyIys,
};

#[test]
fn test_minimal_message_serialization() {
    let message = Message::new(vec![Destination::new("41793026727".to_string())]);

    assert_eq!(message.to_json(), r#"{"destinations":[{"to":"41793026727"}]}"#);
}

#[test]
fn test_minimal_send_request_serialization() {
    let message = Message::new(vec![Destination::new("41793026727".to_string())]);
    let request_body = SendRequestBody::new(vec![message]);

    assert_eq!(
        request_body.to_json(),
        r#"{"messages":[{"destinations":[{"to":"41793026727"}]}]}"#
    );
}

#[test]
fn test_speed_limit_serialization_exact() {
    let mut speed_limit = SpeedLimit::new(5);
    speed_limit.time_unit = Some(TimeUnit::DAY);

    assert_eq!(speed_limit.to_json(), r#"{"amount":5,"timeUnit":"DAY"}"#);

    assert_eq!(SpeedLimit::new(0).to_json(), r#"{"amount":0}"#);
}

#[test]
fn test_delivery_time_window_serialization() {
    let mut window = DeliveryTimeWindow::new(vec![DeliveryDay::FRIDAY]);
    window.from = Some(DeliveryTime::new(8, 30));
    window.to = Some(DeliveryTime::new(17, 0));

    assert_eq!(
        window.to_json(),
        r#"{"days":["FRIDAY"],"from":{"hour":8,"minute":30},"to":{"hour":17,"minute":0}}"#
    );
}

#[test]
fn test_regional_serialization() {
    let mut regional = RegionalOptions::new();
    regional.india_dlt = Some(IndiaDlt::new("PE-1".to_string()));
    let mut turkey = TurkeyIys::new("BIREYSEL".to_string());
    turkey.brand_code = Some(-7);
    regional.turkey_iys = Some(turkey);

    assert_eq!(
        regional.to_json(),
        r#"{"indiaDlt":{"principalEntityId":"PE-1"},"turkeyIys":{"brandCode":-7,"recipientType":"BIREYSEL"}}"#
    );

    assert_eq!(RegionalOptions::new().to_json(), r#"{}"#);
}

#[test]
fn test_string_value_escaping() {
    let mut message = Message::new(vec![Destination::new("1".to_string())]);
    message.text = Some("He said \"hi\",\n\ttabbed \\ done".to_string());

    let serialized = message.to_json();
    assert!(serialized.contains(r#""text":"He said \"hi\",\n\ttabbed \\ done""#));
}

#[test]
fn test_message_round_trip() {
    let mut message = Message::new(vec![Destination::new("41793026727".to_string())]);
    message.from = Some("InfoSMS".to_string());
    message.text = Some("quoted \"text\" with\nnewline".to_string());

    let serialized = message.to_json();
    let decoded = Message::from_json(&serialized).unwrap();

    assert_eq!(decoded.destinations.len(), 1);
    assert_eq!(decoded.destinations[0].to, "41793026727");
    assert_eq!(decoded.from.unwrap(), "InfoSMS");
    assert_eq!(decoded.text.unwrap(), "quoted \"text\" with\nnewline");
}

#[test]
fn test_message_decode_unicode_escape() {
    let message =
        Message::from_json(r#"{"destinations":[{"to":"1"}],"text":"Aé\n"}"#).unwrap();

    assert_eq!(message.text.unwrap(), "Aé\n");
}

#[test]
fn test_message_decode_destination_message_id() {
    let message = Message::from_json(
        r#"{"destinations":[{"messageId":"m-1","to":"41793026727"},{"to":"41793026728"}]}"#,
    )
    .unwrap();

    assert_eq!(message.destinations.len(), 2);
    assert_eq!(message.destinations[0].message_id.clone().unwrap(), "m-1");
    assert_eq!(message.destinations[1].to, "41793026728");
    assert!(message.destinations[1].message_id.is_none());
}

#[test]
fn test_message_decode_missing_destinations() {
    assert!(Message::from_json(r#"{"from":"InfoSMS"}"#).is_err());
    assert!(Message::from_json(r#"{}"#).is_err());
}

#[test]
fn test_message_decode_malformed() {
    assert!(Message::from_json("").is_err());
    assert!(Message::from_json(r#"{"destinations":[{"to":"1"}]"#).is_err());
    assert!(Message::from_json(r#"{"destinations":"oops"}"#).is_err());
    assert!(Message::from_json(r#"{"destinations":[{"to":1}]}"#).is_err());
    assert!(Message::from_json(r#"{"destinations":[{"to":"1"}]} trailing"#).is_err());
    assert!(Message::from_json(r#"{"destinations":[{}]}"#).is_err());
}

#[test]
fn test_message_decode_unknown_member() {
    assert!(Message::from_json(r#"{"destinations":[{"to":"1"}],"unknownField":"x"}"#).is_err());
}

#[test]
fn test_time_unit_tokens() {
    assert_eq!(TimeUnit::DAY.token(), "DAY");
    assert_eq!(TimeUnit::from_token("MINUTE").unwrap(), TimeUnit::MINUTE);
    assert_eq!(TimeUnit::from_token("HOUR").unwrap(), TimeUnit::HOUR);
    assert!(TimeUnit::from_token("WEEK").is_err());
}

#[test]
fn test_delivery_day_tokens() {
    assert_eq!(DeliveryDay::WEDNESDAY.token(), "WEDNESDAY");
    assert_eq!(DeliveryDay::from_token("SUNDAY").unwrap(), DeliveryDay::SUNDAY);
    assert!(DeliveryDay::from_token("FUNDAY").is_err());
    assert!(DeliveryDay::from_token("monday").is_err());
}
