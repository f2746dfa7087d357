use pspkit::mailbox::Mailbox;

#[test]
fn mailbox_keeps_order_and_drains_after_finish() {
    let mut mb = Mailbox::new();
    assert!(mb.must_wait());
    assert_eq!(mb.receive(), None);
    mb.send(1);
    mb.send(2);
    assert!(!mb.must_wait());
    mb.finish();
    assert!(mb.is_finished());
    assert_eq!(mb.receive(), Some(1));
    assert_eq!(mb.receive(), Some(2));
    assert_eq!(mb.receive(), None);
    assert!(!mb.must_wait());
}
