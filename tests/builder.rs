use idserver::server::ServerBuilder;

#[test]
fn builder_defaults() {
    let s = ServerBuilder::new().build();
    assert_eq!(s.port(), 8080);
    assert_eq!(s.address(), [127, 0, 0, 1]);
    let d = ServerBuilder::default().build();
    assert_eq!((d.port(), d.address()), (8080, [127, 0, 0, 1]));
}

#[test]
fn builder_settings() {
    let s = ServerBuilder::new().address([0, 0, 0, 0]).port(9000).build();
    assert_eq!(s.port(), 9000);
    assert_eq!(s.address(), [0, 0, 0, 0]);
    let t = ServerBuilder::new().port(1).port(2).build();
    assert_eq!(t.port(), 2);
    assert_eq!(t.address(), [127, 0, 0, 1]);
}
