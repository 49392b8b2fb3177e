use worker_pool::{Channel, Message};

#[test]
fn new_channel_is_empty() {
    let mut channel = Channel::<u8>::new();
    assert!(channel.is_empty());
    assert_eq!(channel.len(), 0);
    assert_eq!(channel.receive(), None);
    assert!(channel.is_empty());
}

#[test]
fn channel_is_first_in_first_out() {
    let mut channel = Channel::<u8>::new();
    channel.send(Message::NewJob(1));
    channel.send(Message::NewJob(2));
    channel.send(Message::Terminate);
    channel.send(Message::NewJob(3));
    assert_eq!(channel.len(), 4);
    assert!(!channel.is_empty());
    assert_eq!(channel.receive(), Some(Message::NewJob(1)));
    assert_eq!(channel.receive(), Some(Message::NewJob(2)));
    assert_eq!(channel.receive(), Some(Message::Terminate));
    assert_eq!(channel.len(), 1);
    assert_eq!(channel.receive(), Some(Message::NewJob(3)));
    assert_eq!(channel.receive(), None);
    assert_eq!(channel.len(), 0);
}

#[test]
fn each_message_is_received_once() {
    let mut channel = Channel::<u32>::new();
    for task in 0..50 {
        channel.send(Message::NewJob(task));
    }
    let mut received = Vec::new();
    while let Some(message) = channel.receive() {
        match message {
            Message::NewJob(task) => received.push(task),
            Message::Terminate => panic!("no terminate message was sent"),
        }
    }
    assert_eq!(received, (0..50).collect::<Vec<u32>>());
}

#[test]
fn sends_and_receives_interleave() {
    let mut channel = Channel::<u8>::new();
    channel.send(Message::NewJob(1));
    assert_eq!(channel.receive(), Some(Message::NewJob(1)));
    channel.send(Message::NewJob(2));
    channel.send(Message::NewJob(3));
    assert_eq!(channel.receive(), Some(Message::NewJob(2)));
    channel.send(Message::Terminate);
    assert_eq!(channel.receive(), Some(Message::NewJob(3)));
    assert_eq!(channel.receive(), Some(Message::Terminate));
    assert!(channel.is_empty());
}
