use kotomori::channel::Channel;

#[test]
fn values_sent_from_any_sender_come_out_in_order() {
    let mut channel = Channel::new();
    assert_eq!(channel.try_recv(), None);
    let first = channel.sender();
    let second = channel.sender();
    first.send(1).unwrap();
    second.send(2).unwrap();
    assert_eq!(channel.try_recv(), Some(1));
    assert_eq!(channel.try_recv(), Some(2));
    assert_eq!(channel.try_recv(), None);
}
