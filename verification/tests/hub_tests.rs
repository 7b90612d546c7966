use rust_ingestion::hub::Hub;
use rust_ingestion::observation::{Observation, Source};
use rust_ingestion::scheduler::fan_out;

fn chain_obs(value: u64, at: u64) -> Observation {
    Observation::new(Source::ChainHeight, value, at)
}

fn price_obs(cents: u64, at: u64) -> Observation {
    Observation::new(Source::PriceIndex, cents, at)
}

#[test]
fn chain_height_frame_reaches_every_open_subscriber() {
    let mut hub = Hub::new(8);
    let a = hub.accept();
    let b = hub.accept();
    hub.publish(&chain_obs(820000, 1));
    let fa = hub.take_frames(a);
    let fb = hub.take_frames(b);
    assert_eq!(fa, vec!["{\"block_height\": 820000, \"price\": null}".to_string()]);
    assert_eq!(fa, fb);
}

#[test]
fn price_frame_uses_canonical_decimal_text() {
    let mut hub = Hub::new(8);
    let a = hub.accept();
    hub.publish(&price_obs(6500050, 2));
    let fa = hub.take_frames(a);
    assert_eq!(fa, vec!["{\"block_height\": null, \"price\": 65000.50}".to_string()]);
}

#[test]
fn late_subscriber_sees_no_backlog_and_all_later_frames_in_order() {
    let mut hub = Hub::new(8);
    let early = hub.accept();
    hub.publish(&chain_obs(1, 1));
    hub.publish(&chain_obs(2, 2));
    let late = hub.accept();
    assert_eq!(hub.take_frames(late), Vec::<String>::new());
    hub.publish(&chain_obs(3, 3));
    hub.publish(&chain_obs(4, 4));
    assert_eq!(
        hub.take_frames(late),
        vec![
            "{\"block_height\": 3, \"price\": null}".to_string(),
            "{\"block_height\": 4, \"price\": null}".to_string(),
        ]
    );
    let early_frames = hub.take_frames(early);
    assert_eq!(early_frames.len(), 4);
}

#[test]
fn full_queue_drops_oldest_frame_only_for_that_subscriber() {
    let mut hub = Hub::new(2);
    let slow = hub.accept();
    let fast = hub.accept();
    hub.publish(&chain_obs(1, 1));
    // the fast subscriber drains, the slow one does not
    assert_eq!(hub.take_frames(fast).len(), 1);
    hub.publish(&chain_obs(2, 2));
    hub.publish(&chain_obs(3, 3));
    // the slow subscriber's queue overflowed: its oldest frame is gone
    assert_eq!(
        hub.take_frames(slow),
        vec![
            "{\"block_height\": 2, \"price\": null}".to_string(),
            "{\"block_height\": 3, \"price\": null}".to_string(),
        ]
    );
    // the fast subscriber was unaffected and saw everything it had room for
    assert_eq!(
        hub.take_frames(fast),
        vec![
            "{\"block_height\": 2, \"price\": null}".to_string(),
            "{\"block_height\": 3, \"price\": null}".to_string(),
        ]
    );
}

#[test]
fn three_subscribers_get_identical_frames_despite_mid_publish_disconnect() {
    let mut hub = Hub::new(8);
    let a = hub.accept();
    let b = hub.accept();
    let c = hub.accept();
    let obs = chain_obs(820000, 9);
    let persist = fan_out(&mut hub, &obs);
    assert_eq!(persist, obs);
    // one subscriber drops out after the publish reached it
    hub.disconnect(b);
    let fa = hub.take_frames(a);
    let fc = hub.take_frames(c);
    assert_eq!(fa, vec!["{\"block_height\": 820000, \"price\": null}".to_string()]);
    assert_eq!(fa, fc);
    // the departed subscriber is gone; its id yields nothing
    assert_eq!(hub.take_frames(b), Vec::<String>::new());
}

#[test]
fn disconnect_is_idempotent() {
    let mut hub = Hub::new(4);
    let a = hub.accept();
    let b = hub.accept();
    hub.disconnect(a);
    hub.disconnect(a);
    hub.publish(&chain_obs(5, 5));
    assert_eq!(hub.take_frames(b).len(), 1);
    assert_eq!(hub.take_frames(a), Vec::<String>::new());
}

#[test]
fn fan_out_returns_one_persist_request_with_no_subscribers() {
    let mut hub = Hub::new(4);
    let obs = price_obs(123, 7);
    let persist = fan_out(&mut hub, &obs);
    assert_eq!(persist, obs);
}
