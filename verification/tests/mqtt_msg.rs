use std::sync::mpsc;
use ups_manager::app::config_data::{BATTERY_INFO_REQUEST, CONNECT, READ_FW_VERSION};
use ups_manager::mqtt::msg::{handler, requests_for_topic, HandlerOutcome, RequestSink};

#[test]
fn topics_select_their_requests() {
    assert_eq!(requests_for_topic("gateway/batteryInfo.req"), Some(&BATTERY_INFO_REQUEST[..]));
    assert_eq!(requests_for_topic("connect"), Some(&CONNECT[..]));
    assert_eq!(requests_for_topic("connect").unwrap(), &[READ_FW_VERSION]);
    assert_eq!(requests_for_topic("gateway/batteryInfo.req").unwrap().len(), 7);
    assert_eq!(requests_for_topic("Connect"), None);
    assert_eq!(requests_for_topic(""), None);
    assert_eq!(requests_for_topic("gateway/batteryInfo"), None);
}

#[test]
fn handler_sends_requests_in_order() {
    let (tx, rx) = mpsc::channel::<[u16; 4]>();
    let mut sink = RequestSink::new(&tx);
    assert_eq!(handler(Some("gateway/batteryInfo.req"), &mut sink), HandlerOutcome::Requested);
    let got: Vec<[u16; 4]> = rx.try_iter().collect();
    assert_eq!(got, BATTERY_INFO_REQUEST.to_vec());
    assert_eq!(
        got,
        vec![
            [0x11, 3, 0x17, 1],
            [0x11, 3, 0x12, 1],
            [0x11, 3, 0x04, 1],
            [0x11, 3, 0x00, 1],
            [0x11, 3, 0x1C, 1],
            [0x11, 3, 0x1D, 1],
            [0x11, 3, 0x1A, 1],
        ]
    );

    assert_eq!(handler(Some("connect"), &mut sink), HandlerOutcome::Requested);
    let got: Vec<[u16; 4]> = rx.try_iter().collect();
    assert_eq!(got, vec![[0x01, 0x03, 0x00, 0x01]]);
}

#[test]
fn handler_ignores_other_topics_and_empty_messages() {
    let (tx, rx) = mpsc::channel::<[u16; 4]>();
    let mut sink = RequestSink::new(&tx);
    assert_eq!(handler(Some("weather"), &mut sink), HandlerOutcome::UnexpectedTopic);
    assert_eq!(handler(None, &mut sink), HandlerOutcome::EmptyPayload);
    assert_eq!(rx.try_iter().count(), 0);
}

#[test]
fn handler_reports_a_dropped_receiver() {
    let (tx, rx) = mpsc::channel::<[u16; 4]>();
    drop(rx);
    let mut sink = RequestSink::new(&tx);
    assert_eq!(handler(Some("connect"), &mut sink), HandlerOutcome::ReceiverDropped);
    assert_eq!(handler(Some("weather"), &mut sink), HandlerOutcome::UnexpectedTopic);
}
