use teapot::media_type::MediaType;

#[test]
fn media_type_test_to_string() {
    assert_eq!("application/json", MediaType::Json.to_string());
    assert_eq!("text/html", MediaType::Html.to_string());
}

#[test]
fn mime_test_to_string() {}
