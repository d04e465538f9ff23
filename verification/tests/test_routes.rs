use sep2_client::test_routes::{
    echo_route, test_server_route, EchoReply, ExampleResource, HttpMethod, TestHandler, TestReply,
};

#[test]
fn handler_serves_example_documents() {
    let h = TestHandler {};
    assert_eq!(h.route(HttpMethod::Get, "/dcap"), TestReply::Document(ExampleResource::DeviceCapability));
    assert_eq!(h.route(HttpMethod::Get, "/edev"), TestReply::Document(ExampleResource::EndDeviceList));
    assert_eq!(h.route(HttpMethod::Get, "/edev/3"), TestReply::Document(ExampleResource::EndDevice3));
    assert_eq!(
        h.route(HttpMethod::Get, "/edev/4/fsal"),
        TestReply::Document(ExampleResource::FunctionSetAssignmentsList)
    );
    assert_eq!(h.route(HttpMethod::Get, "/edev/4"), TestReply::Document(ExampleResource::EndDevice4));
    assert_eq!(h.route(HttpMethod::Get, "/edev/5"), TestReply::Document(ExampleResource::EndDevice5));
    assert_eq!(h.route(HttpMethod::Get, "/edev/3/reg"), TestReply::Document(ExampleResource::Registration));
}

#[test]
fn handler_creates_end_device_and_rejects_the_rest() {
    let h = TestHandler {};
    assert_eq!(h.route(HttpMethod::Post, "/edev"), TestReply::Created(Some("/edev/4".to_string())));
    assert_eq!(h.route(HttpMethod::Put, "/edev/3"), TestReply::NotFound);
    assert_eq!(h.route(HttpMethod::Post, "/rsp"), TestReply::NotFound);
    assert_eq!(h.route(HttpMethod::Get, "/missing"), TestReply::NotFound);
    assert_eq!(h.route(HttpMethod::Delete, "/dcap"), TestReply::NotFound);
}

#[test]
fn test_server_routes() {
    assert_eq!(test_server_route(HttpMethod::Get, "/dcap"), TestReply::Document(ExampleResource::DeviceCapability));
    assert_eq!(test_server_route(HttpMethod::Post, "/edev"), TestReply::Created(Some("/edev/4".to_string())));
    assert_eq!(test_server_route(HttpMethod::Put, "/edev/3"), TestReply::NoContent);
    assert_eq!(test_server_route(HttpMethod::Delete, "/edev/3"), TestReply::NoContent);
    assert_eq!(test_server_route(HttpMethod::Delete, "/edev/4"), TestReply::NotFound);
    assert_eq!(test_server_route(HttpMethod::Post, "/rsp"), TestReply::Created(None));
    assert_eq!(test_server_route(HttpMethod::Other, "/dcap"), TestReply::NotFound);
    assert_eq!(test_server_route(HttpMethod::Get, "/rsp"), TestReply::NotFound);
}

#[test]
fn echo_server_routes() {
    assert_eq!(echo_route(HttpMethod::Get, "/"), EchoReply::Greeting);
    assert_eq!(echo_route(HttpMethod::Post, "/echo"), EchoReply::Echo);
    assert_eq!(echo_route(HttpMethod::Get, "/echo"), EchoReply::NotFound);
    assert_eq!(echo_route(HttpMethod::Post, "/"), EchoReply::NotFound);
}
