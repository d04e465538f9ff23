use sep2_client::response::{
    check_get_status, read_response, route_request, ErrorReason, RequestError, ResponseError,
    ResponseHeader, SEPResponse,
};
use sep2_client::types::{response_permitted, EIStatus, EventStatusType, FunctionSet, ResponseStatus};

#[test]
fn reads_responses_by_status() {
    assert_eq!(
        read_response(201, Some("/edev/4".to_string()), None, None),
        Ok(SEPResponse::Created(Some("/edev/4".to_string())))
    );
    assert_eq!(read_response(201, None, None, None), Ok(SEPResponse::Created(None)));
    assert_eq!(read_response(204, None, None, None), Ok(SEPResponse::NoContent));
    let err = RequestError { max_retry_duration: Some(30), reason: ErrorReason::ResourceLimitReached };
    assert_eq!(read_response(400, None, None, Some(err)), Ok(SEPResponse::BadRequest(Some(err))));
    assert_eq!(read_response(404, None, None, None), Ok(SEPResponse::NotFound));
    assert_eq!(
        read_response(405, None, Some("POST".to_string()), None),
        Ok(SEPResponse::MethodNotAllowed("POST".to_string()))
    );
    assert_eq!(read_response(405, None, None, None), Err(ResponseError::MissingAllowHeader));
    assert_eq!(read_response(500, None, None, None), Err(ResponseError::UnexpectedStatus(500)));
    assert_eq!(read_response(200, None, None, None), Err(ResponseError::UnexpectedStatus(200)));
}

#[test]
fn sent_responses_read_back() {
    let all = vec![
        SEPResponse::Created(Some("/rsp/1".to_string())),
        SEPResponse::Created(None),
        SEPResponse::NoContent,
        SEPResponse::BadRequest(None),
        SEPResponse::NotFound,
        SEPResponse::MethodNotAllowed("GET, POST".to_string()),
    ];
    for r in all {
        let (location, allow) = match r.header() {
            Some(ResponseHeader::Location(l)) => (Some(l), None),
            Some(ResponseHeader::Allow(a)) => (None, Some(a)),
            None => (None, None),
        };
        assert_eq!(read_response(r.status_code(), location, allow, None), Ok(r.clone()));
    }
}

#[test]
fn get_needs_ok() {
    assert_eq!(check_get_status(200), Ok(()));
    assert_eq!(check_get_status(404), Err(ResponseError::UnexpectedStatus(404)));
}

#[test]
fn describes_responses() {
    assert_eq!(SEPResponse::Created(None).describe(), "201 Created - Location Header None");
    assert_eq!(
        SEPResponse::Created(Some("/edev/4".to_string())).describe(),
        "201 Created - Location Header /edev/4"
    );
    assert_eq!(SEPResponse::NoContent.describe(), "204 No Content");
    assert_eq!(SEPResponse::BadRequest(None).describe(), "400 Bad Request");
    assert_eq!(
        SEPResponse::BadRequest(Some(RequestError { max_retry_duration: Some(30), reason: ErrorReason::InvalidRequestFormat }))
            .describe(),
        "400 Bad Request - Error: Request Error - Max Retry Duration: 30 - Reason: Invalid request format"
    );
    assert_eq!(
        SEPResponse::BadRequest(Some(RequestError { max_retry_duration: None, reason: ErrorReason::MaximumRequestFrequency }))
            .describe(),
        "400 Bad Request - Error: Request Error - Reason: Maximum request frequency exceeded"
    );
    assert_eq!(SEPResponse::NotFound.describe(), "404 Not Found");
    assert_eq!(
        SEPResponse::MethodNotAllowed("POST".to_string()).describe(),
        "405 Method Not Allowed - Allow Header POST"
    );
    assert_eq!(SEPResponse::NotFound.status_code(), 404);
    assert!(SEPResponse::NoContent.is_success());
    assert!(!SEPResponse::NotFound.is_success());
}

#[test]
fn notification_routes() {
    assert_eq!(route_request(false, true), Some(SEPResponse::MethodNotAllowed("POST".to_string())));
    assert_eq!(route_request(true, false), Some(SEPResponse::NotFound));
    assert_eq!(route_request(true, true), None);
}

#[test]
fn response_codes() {
    assert_eq!(ResponseStatus::EventReceived.code(), 1);
    assert_eq!(ResponseStatus::EventAbortedProgram.code(), 14);
    assert_eq!(ResponseStatus::EventExpired.code(), 254);
    assert_eq!(ResponseStatus::from(EIStatus::Complete), ResponseStatus::EventCompleted);
    assert_eq!(ResponseStatus::from(EIStatus::CancelledRandom), ResponseStatus::EventCancelled);
    assert_eq!(ResponseStatus::from(EventStatusType::Active), ResponseStatus::EventStarted);
    assert_eq!(EIStatus::from(EventStatusType::Superseded), EIStatus::Superseded);
}

#[test]
fn table_27_der() {
    let fs = FunctionSet::Der;
    assert!(response_permitted(fs, ResponseStatus::EventReceived, Some(1)));
    assert!(!response_permitted(fs, ResponseStatus::EventReceived, Some(4)));
    assert!(response_permitted(fs, ResponseStatus::EventReceived, Some(2)));
    assert!(response_permitted(fs, ResponseStatus::EventAcknowledge, Some(4)));
    assert!(response_permitted(fs, ResponseStatus::EventOptOut, Some(2)));
    assert!(!response_permitted(fs, ResponseStatus::EventOptOut, Some(5)));
    assert!(!response_permitted(fs, ResponseStatus::EventNoDisplay, Some(7)));
    assert!(!response_permitted(fs, ResponseStatus::EventStarted, None));
    assert!(!response_permitted(FunctionSet::Drlc, ResponseStatus::EventNoDisplay, Some(2)));
}

#[test]
fn table_27_messaging_and_pricing() {
    assert!(response_permitted(FunctionSet::Messaging, ResponseStatus::EventNoDisplay, Some(2)));
    assert!(!response_permitted(FunctionSet::Pricing, ResponseStatus::EventNoDisplay, Some(2)));
    assert!(response_permitted(FunctionSet::Pricing, ResponseStatus::EventStarted, Some(2)));
    assert!(!response_permitted(FunctionSet::Pricing, ResponseStatus::EventStarted, Some(1)));
    assert!(!response_permitted(FunctionSet::Pricing, ResponseStatus::EventOptOut, Some(7)));
    assert!(response_permitted(FunctionSet::Messaging, ResponseStatus::EventAcknowledge, Some(4)));
    assert!(!response_permitted(FunctionSet::Messaging, ResponseStatus::EventAcknowledge, Some(2)));
    assert!(response_permitted(FunctionSet::Messaging, ResponseStatus::EventReceived, Some(1)));
    assert!(!response_permitted(FunctionSet::Messaging, ResponseStatus::EventCancelled, Some(7)));
}

#[test]
fn status_conversions_commute() {
    for s in [
        EventStatusType::Scheduled,
        EventStatusType::Active,
        EventStatusType::Cancelled,
        EventStatusType::CancelledRandom,
        EventStatusType::Superseded,
    ] {
        assert_eq!(ResponseStatus::from(EIStatus::from(s)), ResponseStatus::from(s));
    }
}

#[test]
fn retry_durations_are_written_in_decimal() {
    for (d, text) in [(0u16, "0"), (7, "7"), (10, "10"), (305, "305"), (65535, "65535")] {
        let e = RequestError { max_retry_duration: Some(d), reason: ErrorReason::ResourceLimitReached };
        assert_eq!(
            e.describe(),
            format!("Request Error - Max Retry Duration: {} - Reason: Resource limit reached", text)
        );
    }
}
