use sheila::server::hello;

#[test]
fn test_hello() {
    assert_eq!(hello(), "Hello from sheila-core!");
}
