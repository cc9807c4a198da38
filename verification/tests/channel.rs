use ups_manager::app::data_structures::{Channel, ChannelError};

#[test]
fn channel_hands_out_count_transmitters() {
    let mut channel: Channel<u32> = Channel::new(2);
    let a = channel.get_transmitter().unwrap();
    let b = channel.get_transmitter().unwrap();
    assert!(std::sync::Arc::ptr_eq(&a, &b));
    assert_eq!(channel.get_transmitter().err(), Some(ChannelError::AllTransmittersExtracted));
    assert_eq!(channel.get_transmitter().err(), Some(ChannelError::AllTransmittersExtracted));
}

#[test]
fn channel_with_no_transmitters() {
    let mut channel: Channel<u8> = Channel::new(0);
    let err = channel.get_transmitter().err().unwrap();
    assert_eq!(err, ChannelError::AllTransmittersExtracted);
    assert_eq!(err.to_string(), "All transmittes have been extracted!");
    assert!(channel.recv().is_err());
}

#[test]
fn channel_delivers_in_order_then_reports_disconnection() {
    let mut channel: Channel<([u8; 8], usize)> = Channel::new(1);
    let tx = channel.get_transmitter().unwrap();
    tx.lock().unwrap().send(([1; 8], 4)).unwrap();
    tx.lock().unwrap().send(([2; 8], 8)).unwrap();
    assert_eq!(channel.recv().unwrap(), ([1; 8], 4));
    assert_eq!(channel.recv().unwrap(), ([2; 8], 8));
    drop(tx);
    assert!(channel.recv().is_err());
}
