//! How the servers used for system tests answer requests: each serves a fixed set of
//! example resources by method and path.
use vstd::prelude::*;

verus! {

/// The HTTP method of a request, as the test servers tell methods apart.
#[derive(Clone, Copy, Debug, PartialEq, Eq, Structural)]
pub enum HttpMethod {
    Get,
    Post,
    Put,
    Delete,
    /// Any other method.
    Other,
}

/// An example resource document that a test server serves as a response body.
#[derive(Clone, Copy, Debug, PartialEq, Eq, Structural)]
pub enum ExampleResource {
    /// The `DeviceCapability` at `/dcap`.
    DeviceCapability,
    /// The `EndDeviceList` at `/edev`.
    EndDeviceList,
    /// The `EndDevice` at `/edev/3`.
    EndDevice3,
    /// The `EndDevice` at `/edev/4`.
    EndDevice4,
    /// The `EndDevice` at `/edev/5`, which has no function set assignments.
    EndDevice5,
    /// The `FunctionSetAssignmentsList` at `/edev/4/fsal`.
    FunctionSetAssignmentsList,
    /// The `Registration` at `/edev/3/reg`.
    Registration,
}

/// What a test server answers.
#[derive(Clone, Debug, PartialEq, Eq)]
pub enum TestReply {
    /// HTTP 200 with the example resource as the body.
    Document(ExampleResource),
    /// HTTP 201, with the Location header's value if there is one.
    Created(Option<String>),
    /// HTTP 204.
    NoContent,
    /// HTTP 404.
    NotFound,
}

/// The resource that both test servers serve to a GET of `path`, if any.
pub open spec fn served_document(path: Seq<char>) -> Option<ExampleResource> {
    if path == "/dcap"@ {
        Some(ExampleResource::DeviceCapability)
    } else if path == "/edev"@ {
        Some(ExampleResource::EndDeviceList)
    } else if path == "/edev/3"@ {
        Some(ExampleResource::EndDevice3)
    } else if path == "/edev/4/fsal"@ {
        Some(ExampleResource::FunctionSetAssignmentsList)
    } else if path == "/edev/4"@ {
        Some(ExampleResource::EndDevice4)
    } else if path == "/edev/5"@ {
        Some(ExampleResource::EndDevice5)
    } else if path == "/edev/3/reg"@ {
        Some(ExampleResource::Registration)
    } else {
        None
    }
}

/// Whether a reply is a 201 whose Location header is `loc`.
pub open spec fn created_at(r: TestReply, loc: Seq<char>) -> bool {
    match r {
        TestReply::Created(Some(l)) => l@ == loc,
        _ => false,
    }
}

/// A GET of a served path returns its document; a POST to `/edev` creates `/edev/4`; anything
/// else is not found.
pub open spec fn handler_reply_ok(method: HttpMethod, path: Seq<char>, r: TestReply) -> bool {
    if method == HttpMethod::Get && served_document(path) is Some {
        r == TestReply::Document(served_document(path)->0)
    } else if method == HttpMethod::Post && path == "/edev"@ {
        created_at(r, "/edev/4"@)
    } else {
        r == TestReply::NotFound
    }
}

/// As [`handler_reply_ok`], and also: a PUT or DELETE of `/edev/3` succeeds with no content,
/// and a POST to `/rsp` (where responses go) is created with no Location header.
pub open spec fn test_server_reply_ok(method: HttpMethod, path: Seq<char>, r: TestReply) -> bool {
    if method == HttpMethod::Get && served_document(path) is Some {
        r == TestReply::Document(served_document(path)->0)
    } else if method == HttpMethod::Post && path == "/edev"@ {
        created_at(r, "/edev/4"@)
    } else if (method == HttpMethod::Put || method == HttpMethod::Delete) && path == "/edev/3"@ {
        r == TestReply::NoContent
    } else if method == HttpMethod::Post && path == "/rsp"@ {
        r == TestReply::Created(None)
    } else {
        r == TestReply::NotFound
    }
}

fn path_is(path: &str, lit: &str) -> (b: bool)
    ensures
        b == (path@ == lit@),
{
    path.to_owned() == lit.to_owned()
}

/// The document served to a GET of `path`, if any.
fn document_at(path: &str) -> (d: Option<ExampleResource>)
    ensures
        d == served_document(path@),
{
    if path_is(path, "/dcap") {
        Some(ExampleResource::DeviceCapability)
    } else if path_is(path, "/edev") {
        Some(ExampleResource::EndDeviceList)
    } else if path_is(path, "/edev/3") {
        Some(ExampleResource::EndDevice3)
    } else if path_is(path, "/edev/4/fsal") {
        Some(ExampleResource::FunctionSetAssignmentsList)
    } else if path_is(path, "/edev/4") {
        Some(ExampleResource::EndDevice4)
    } else if path_is(path, "/edev/5") {
        Some(ExampleResource::EndDevice5)
    } else if path_is(path, "/edev/3/reg") {
        Some(ExampleResource::Registration)
    } else {
        None
    }
}

/// The request handler of the notification test server.
#[derive(Clone, Copy, Debug)]
pub struct TestHandler {}

impl TestHandler {
    /// Answer a request with the given method and path.
    pub fn route(&self, method: HttpMethod, path: &str) -> (r: TestReply)
        ensures
            handler_reply_ok(method, path@, r),
    {
        let doc = document_at(path);
        match (method, doc) {
            (HttpMethod::Get, Some(d)) => TestReply::Document(d),
            _ => {
                if method == HttpMethod::Post && path_is(path, "/edev") {
                    TestReply::Created(Some("/edev/4".to_owned()))
                } else {
                    TestReply::NotFound
                }
            },
        }
    }
}

/// Answer a request to the IEEE 2030.5 test server with the given method and path.
pub fn test_server_route(method: HttpMethod, path: &str) -> (r: TestReply)
    ensures
        test_server_reply_ok(method, path@, r),
{
    let doc = document_at(path);
    match (method, doc) {
        (HttpMethod::Get, Some(d)) => TestReply::Document(d),
        _ => {
            if method == HttpMethod::Post && path_is(path, "/edev") {
                TestReply::Created(Some("/edev/4".to_owned()))
            } else if (method == HttpMethod::Put || method == HttpMethod::Delete) && path_is(path, "/edev/3") {
                TestReply::NoContent
            } else if method == HttpMethod::Post && path_is(path, "/rsp") {
                TestReply::Created(None)
            } else {
                TestReply::NotFound
            }
        },
    }
}

/// What the plain HTTPS test server answers.
#[derive(Clone, Copy, Debug, PartialEq, Eq, Structural)]
pub enum EchoReply {
    /// HTTP 200 with the body "Hello World!\n".
    Greeting,
    /// HTTP 200 with the request's own body.
    Echo,
    /// HTTP 404.
    NotFound,
}

/// Answer a request to the plain HTTPS test server: a GET of `/` is greeted, a POST to
/// `/echo` is echoed, and anything else is not found.
pub fn echo_route(method: HttpMethod, path: &str) -> (r: EchoReply)
    ensures
        r == (if method == HttpMethod::Get && path@ == "/"@ {
            EchoReply::Greeting
        } else if method == HttpMethod::Post && path@ == "/echo"@ {
            EchoReply::Echo
        } else {
            EchoReply::NotFound
        }),
{
    if method == HttpMethod::Get && path_is(path, "/") {
        EchoReply::Greeting
    } else if method == HttpMethod::Post && path_is(path, "/echo") {
        EchoReply::Echo
    } else {
        EchoReply::NotFound
    }
}

} // verus!
