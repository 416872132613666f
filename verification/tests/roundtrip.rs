use dotlanth::parse_and_validate;
use dotlanth::serialize::document_to_source;

const HELLO_API: &str = "dot 0.1\napp \"hello-api\"\nallow net.http.listen\n\nserver listen 8080\n\napi \"public\"\n  route GET \"/hello\"\n    respond 200 \"Hello from Dotlanth\"\n  end\nend\n";

#[test]
fn reserialising_a_valid_document_reparses_with_identical_spans() {
    let document = parse_and_validate(HELLO_API, "hello-api.dot").expect("fixture must validate");

    let rendered = document_to_source(&document);
    let reparsed = parse_and_validate(&rendered, "hello-api.dot").expect("rendered source must validate");

    assert_eq!(reparsed, document);
}

#[test]
fn reserialising_reproduces_canonically_spaced_source_byte_for_byte() {
    let document = parse_and_validate(HELLO_API, "hello-api.dot").expect("fixture must validate");
    assert_eq!(document_to_source(&document), HELLO_API);
}

#[test]
fn reserialising_keeps_multiple_apis_and_metadata() {
    let source = "dot 0.1\napp \"a\"\nproject \"p\"\nallow log\nallow net.http.listen\nserver listen 9000\napi \"one\"\n  route GET \"/x\"\n    respond 200 \"x\"\n  end\n  route POST \"/y\"\n    respond 201 \"y\"\n  end\nend\napi \"two\"\n  route DELETE \"/z\"\n    respond 204 \"\"\n  end\nend\n";
    let document = parse_and_validate(source, "multi.dot").expect("source must validate");

    let rendered = document_to_source(&document);
    let reparsed = parse_and_validate(&rendered, "multi.dot").expect("rendered source must validate");

    assert_eq!(reparsed, document);
    assert_eq!(rendered, source);
}
