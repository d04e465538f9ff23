//! The HTTP responses an IEEE 2030.5 client sends and receives.
use vstd::prelude::*;
use vstd::string::StringExecFns;

verus! {

/// The reason a server gives for refusing a request (the `reasonCode` of an `Error` resource).
#[derive(Clone, Copy, Debug, PartialEq, Eq, Structural)]
pub enum ErrorReason {
    InvalidRequestFormat,
    InvalidRequestValues,
    ResourceLimitReached,
    SubscriptionNotSupported,
    MaximumRequestFrequency,
}

/// The contents of an `Error` resource.
#[derive(Clone, Copy, Debug, PartialEq, Eq, Structural)]
pub struct RequestError {
    /// How many seconds the client should wait before retrying, if the server says.
    pub max_retry_duration: Option<u16>,
    /// Why the request failed.
    pub reason: ErrorReason,
}

/// The possible HTTP responses of an IEEE 2030.5 exchange.
#[derive(Clone, Debug, PartialEq, Eq)]
pub enum SEPResponse {
    /// HTTP 201, with the Location header's value if there is one.
    Created(Option<String>),
    /// HTTP 204.
    NoContent,
    /// HTTP 400, with the `Error` resource of the body if there is one.
    BadRequest(Option<RequestError>),
    /// HTTP 404.
    NotFound,
    /// HTTP 405, with the Allow header's value.
    MethodNotAllowed(String),
}

/// A header that a response carries.
#[derive(Clone, Debug, PartialEq, Eq)]
pub enum ResponseHeader {
    /// The Location header.
    Location(String),
    /// The Allow header.
    Allow(String),
}

/// The HTTP status code of a response.
pub open spec fn spec_status_code(r: SEPResponse) -> u16 {
    match r {
        SEPResponse::Created(_) => 201,
        SEPResponse::NoContent => 204,
        SEPResponse::BadRequest(_) => 400,
        SEPResponse::NotFound => 404,
        SEPResponse::MethodNotAllowed(_) => 405,
    }
}

/// Why an HTTP response could not be read as an IEEE 2030.5 response.
#[derive(Clone, Copy, Debug, PartialEq, Eq, Structural)]
pub enum ResponseError {
    /// A 405 response without an Allow header.
    MissingAllowHeader,
    /// A status code outside those IEEE 2030.5 expects.
    UnexpectedStatus(u16),
}

/// The response a client reads from an HTTP status code and the headers and body that come
/// with it.
pub open spec fn spec_read_response(
    status: u16,
    location: Option<String>,
    allow: Option<String>,
    error: Option<RequestError>,
) -> Result<SEPResponse, ResponseError> {
    if status == 201 {
        Ok(SEPResponse::Created(location))
    } else if status == 204 {
        Ok(SEPResponse::NoContent)
    } else if status == 400 {
        Ok(SEPResponse::BadRequest(error))
    } else if status == 404 {
        Ok(SEPResponse::NotFound)
    } else if status == 405 {
        match allow {
            Some(a) => Ok(SEPResponse::MethodNotAllowed(a)),
            None => Err(ResponseError::MissingAllowHeader),
        }
    } else {
        Err(ResponseError::UnexpectedStatus(status))
    }
}

/// Read an HTTP response as an IEEE 2030.5 response, from its status code, its Location and
/// Allow headers, and the `Error` resource of its body, where it has them.
pub fn read_response(
    status: u16,
    location: Option<String>,
    allow: Option<String>,
    error: Option<RequestError>,
) -> (r: Result<SEPResponse, ResponseError>)
    ensures
        r == spec_read_response(status, location, allow, error),
{
    if status == 201 {
        Ok(SEPResponse::Created(location))
    } else if status == 204 {
        Ok(SEPResponse::NoContent)
    } else if status == 400 {
        Ok(SEPResponse::BadRequest(error))
    } else if status == 404 {
        Ok(SEPResponse::NotFound)
    } else if status == 405 {
        match allow {
            Some(a) => Ok(SEPResponse::MethodNotAllowed(a)),
            None => Err(ResponseError::MissingAllowHeader),
        }
    } else {
        Err(ResponseError::UnexpectedStatus(status))
    }
}

/// The Location header of a response, if it carries one.
pub open spec fn location_of(r: SEPResponse) -> Option<String> {
    match r {
        SEPResponse::Created(l) => l,
        _ => None,
    }
}

/// The Allow header of a response, if it carries one.
pub open spec fn allow_of(r: SEPResponse) -> Option<String> {
    match r {
        SEPResponse::MethodNotAllowed(a) => Some(a),
        _ => None,
    }
}

/// The `Error` resource a response carries in its body, if any.
pub open spec fn error_of(r: SEPResponse) -> Option<RequestError> {
    match r {
        SEPResponse::BadRequest(e) => e,
        _ => None,
    }
}

/// A response a server sends, with the status code and headers it is sent with, is read back
/// by a client as the same response.
pub proof fn lemma_read_sent_response(r: SEPResponse)
    ensures
        spec_read_response(spec_status_code(r), location_of(r), allow_of(r), error_of(r)) == Ok::<SEPResponse, ResponseError>(r),
{
}

/// Check the status of the response to a GET: only 200 OK carries a resource.
pub fn check_get_status(status: u16) -> (r: Result<(), ResponseError>)
    ensures
        r == (if status == 200 {
            Ok(())
        } else {
            Err(ResponseError::UnexpectedStatus(status))
        }),
{
    if status == 200 {
        Ok(())
    } else {
        Err(ResponseError::UnexpectedStatus(status))
    }
}

/// The character of a decimal digit.
pub open spec fn digit_char(d: nat) -> char {
    (48 + d) as char
}

/// The decimal text of a number: its digits, most significant first, with no leading zeros.
pub open spec fn decimal_text(n: nat) -> Seq<char>
    decreases n,
{
    if n < 10 {
        seq![digit_char(n)]
    } else {
        decimal_text(n / 10).push(digit_char(n % 10))
    }
}

/// The text of one decimal digit.
fn digit_str(d: u16) -> (s: &'static str)
    requires
        d < 10,
    ensures
        s@ == seq![digit_char(d as nat)],
{
    proof {
        reveal_strlit("0");
        reveal_strlit("1");
        reveal_strlit("2");
        reveal_strlit("3");
        reveal_strlit("4");
        reveal_strlit("5");
        reveal_strlit("6");
        reveal_strlit("7");
        reveal_strlit("8");
        reveal_strlit("9");
    }
    match d {
        0 => "0",
        1 => "1",
        2 => "2",
        3 => "3",
        4 => "4",
        5 => "5",
        6 => "6",
        7 => "7",
        8 => "8",
        _ => "9",
    }
}

/// Write a number in decimal.
fn decimal(n: u16) -> (s: String)
    ensures
        s@ == decimal_text(n as nat),
    decreases n,
{
    if n < 10 {
        String::from_str(digit_str(n))
    } else {
        let mut s = decimal(n / 10);
        s.append(digit_str(n % 10));
        s
    }
}

/// The text that describes an error reason.
pub open spec fn spec_reason_text(r: ErrorReason) -> Seq<char> {
    match r {
        ErrorReason::InvalidRequestFormat => "Invalid request format"@,
        ErrorReason::InvalidRequestValues => "Invalid request values (e.g. invalid threshold values)"@,
        ErrorReason::ResourceLimitReached => "Resource limit reached"@,
        ErrorReason::SubscriptionNotSupported => "Conditional subscription field not supported"@,
        ErrorReason::MaximumRequestFrequency => "Maximum request frequency exceeded"@,
    }
}

/// The text that describes a request error.
pub open spec fn spec_error_text(e: RequestError) -> Seq<char> {
    match e.max_retry_duration {
        Some(d) => "Request Error - Max Retry Duration: "@ + decimal_text(d as nat) + " - Reason: "@ + spec_reason_text(e.reason),
        None => "Request Error - Reason: "@ + spec_reason_text(e.reason),
    }
}

/// The text that describes a response.
pub open spec fn spec_describe(r: SEPResponse) -> Seq<char> {
    match r {
        SEPResponse::Created(loc) => "201 Created - Location Header "@ + match loc {
            Some(l) => l@,
            None => "None"@,
        },
        SEPResponse::NoContent => "204 No Content"@,
        SEPResponse::BadRequest(e) => match e {
            Some(e) => "400 Bad Request - Error: "@ + spec_error_text(e),
            None => "400 Bad Request"@,
        },
        SEPResponse::NotFound => "404 Not Found"@,
        SEPResponse::MethodNotAllowed(allow) => "405 Method Not Allowed - Allow Header "@ + allow@,
    }
}

impl ErrorReason {
    /// The text that describes the reason.
    pub fn describe(&self) -> (s: String)
        ensures
            s@ == spec_reason_text(*self),
    {
        match self {
            ErrorReason::InvalidRequestFormat => String::from_str("Invalid request format"),
            ErrorReason::InvalidRequestValues => String::from_str("Invalid request values (e.g. invalid threshold values)"),
            ErrorReason::ResourceLimitReached => String::from_str("Resource limit reached"),
            ErrorReason::SubscriptionNotSupported => String::from_str("Conditional subscription field not supported"),
            ErrorReason::MaximumRequestFrequency => String::from_str("Maximum request frequency exceeded"),
        }
    }
}

impl RequestError {
    /// The text that describes the error.
    pub fn describe(&self) -> (s: String)
        ensures
            s@ == spec_error_text(*self),
    {
        match self.max_retry_duration {
            Some(d) => {
                let mut s = String::from_str("Request Error - Max Retry Duration: ");
                let digits = decimal(d);
                s.append(digits.as_str());
                s.append(" - Reason: ");
                let reason = self.reason.describe();
                s.append(reason.as_str());
                s
            },
            None => {
                let mut s = String::from_str("Request Error - Reason: ");
                let reason = self.reason.describe();
                s.append(reason.as_str());
                s
            },
        }
    }
}

impl SEPResponse {
    /// The HTTP status code of the response.
    pub fn status_code(&self) -> (c: u16)
        ensures
            c == spec_status_code(*self),
    {
        match self {
            SEPResponse::Created(_) => 201,
            SEPResponse::NoContent => 204,
            SEPResponse::BadRequest(_) => 400,
            SEPResponse::NotFound => 404,
            SEPResponse::MethodNotAllowed(_) => 405,
        }
    }

    /// The header the response carries: a 201 its Location, where it has one, and a 405 its Allow.
    pub fn header(&self) -> (h: Option<ResponseHeader>)
        ensures
            h == (match *self {
                SEPResponse::Created(Some(l)) => Some(ResponseHeader::Location(l)),
                SEPResponse::MethodNotAllowed(a) => Some(ResponseHeader::Allow(a)),
                _ => None,
            }),
    {
        match self {
            SEPResponse::Created(Some(l)) => Some(ResponseHeader::Location(l.clone())),
            SEPResponse::MethodNotAllowed(a) => Some(ResponseHeader::Allow(a.clone())),
            _ => None,
        }
    }

    /// Whether the server accepted the request (201 or 204).
    pub fn is_success(&self) -> (b: bool)
        ensures
            b == (spec_status_code(*self) == 201 || spec_status_code(*self) == 204),
    {
        match self {
            SEPResponse::Created(_) | SEPResponse::NoContent => true,
            _ => false,
        }
    }

    /// The text that describes the response.
    pub fn describe(&self) -> (s: String)
        ensures
            s@ == spec_describe(*self),
    {
        match self {
            SEPResponse::Created(loc) => {
                let mut s = String::from_str("201 Created - Location Header ");
                match loc {
                    Some(l) => s.append(l.as_str()),
                    None => s.append("None"),
                }
                s
            },
            SEPResponse::NoContent => String::from_str("204 No Content"),
            SEPResponse::BadRequest(e) => match e {
                Some(e) => {
                    let mut s = String::from_str("400 Bad Request - Error: ");
                    let text = e.describe();
                    s.append(text.as_str());
                    s
                },
                None => String::from_str("400 Bad Request"),
            },
            SEPResponse::NotFound => String::from_str("404 Not Found"),
            SEPResponse::MethodNotAllowed(allow) => {
                let mut s = String::from_str("405 Method Not Allowed - Allow Header ");
                s.append(allow.as_str());
                s
            },
        }
    }
}

/// Decide how a client's notification server answers a request with the given method, on a
/// path that does or does not have a route: `None` means the route handles it.
pub fn route_request(is_post: bool, has_route: bool) -> (r: Option<SEPResponse>)
    ensures
        match r {
            Some(SEPResponse::MethodNotAllowed(a)) => !is_post && a@ == "POST"@,
            Some(SEPResponse::NotFound) => is_post && !has_route,
            Some(_) => false,
            None => is_post && has_route,
        },
{
    if !is_post {
        Some(SEPResponse::MethodNotAllowed(String::from_str("POST")))
    } else if !has_route {
        Some(SEPResponse::NotFound)
    } else {
        None
    }
}

} // verus!
