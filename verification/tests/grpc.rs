use rmqtt::grpc::{Message, MessageSender, NodeGrpcClient};

#[test]
fn message_sender_new_tries_once() {
    let client = NodeGrpcClient { node_id: 2, addr: String::from("127.0.0.1:5363") };
    let s = MessageSender::new(client, 198, Message::NumberOfClients);
    assert_eq!(s.msg_type, 198);
    assert_eq!(s.max_retries, 0);
    assert_eq!(s.retry_interval_millis, 500);
    assert!(matches!(s.msg, Message::NumberOfClients));
    assert_eq!(s.client.node_id, 2);
}
