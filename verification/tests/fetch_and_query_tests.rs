use rust_ingestion::fetch::{decode_height_body, decode_price_body};
use rust_ingestion::frame::render_frame;
use rust_ingestion::observation::{FetchError, Observation, Source};
use rust_ingestion::query::{list_joined, render_joined, BlockRow, JoinedRow, PriceRow};

#[test]
fn decodes_chain_height_body() {
    assert_eq!(decode_height_body(b"{\"height\": 820000}"), Ok(820000));
    assert_eq!(decode_height_body(b"{\"height\": 0}"), Ok(0));
}

#[test]
fn chain_height_decode_rejects_malformed_bodies() {
    assert_eq!(decode_height_body(b"not json"), Err(FetchError::DecodeError));
    assert_eq!(decode_height_body(b"{}"), Err(FetchError::DecodeError));
    assert_eq!(
        decode_height_body(b"{\"height\": -3}"),
        Err(FetchError::DecodeError)
    );
    assert_eq!(
        decode_height_body(b"{\"height\": \"820000\"}"),
        Err(FetchError::DecodeError)
    );
}

#[test]
fn decodes_price_body_into_cents() {
    assert_eq!(
        decode_price_body(b"{\"bitcoin\": {\"usd\": 65000.50}}"),
        Ok(6500050)
    );
    assert_eq!(
        decode_price_body(b"{\"bitcoin\": {\"usd\": 65000}}"),
        Ok(6500000)
    );
}

#[test]
fn price_decode_rejects_malformed_bodies() {
    assert_eq!(decode_price_body(b"not json"), Err(FetchError::DecodeError));
    assert_eq!(
        decode_price_body(b"{\"bitcoin\": {}}"),
        Err(FetchError::DecodeError)
    );
    assert_eq!(
        decode_price_body(b"{\"bitcoin\": {\"usd\": \"oops\"}}"),
        Err(FetchError::DecodeError)
    );
    assert_eq!(
        decode_price_body(b"{\"bitcoin\": {\"usd\": -1.5}}"),
        Err(FetchError::DecodeError)
    );
}

#[test]
fn scenario_frames_for_the_two_feeds() {
    let h = render_frame(&Observation::new(Source::ChainHeight, 820000, 1));
    assert_eq!(h, "{\"block_height\": 820000, \"price\": null}");
    let p = render_frame(&Observation::new(Source::PriceIndex, 6500050, 2));
    assert_eq!(p, "{\"block_height\": null, \"price\": 65000.50}");
}

#[test]
fn joined_view_pairs_rows_with_matching_timestamps() {
    let blocks = vec![
        BlockRow { block_height: 820000, block_timestamp: 100 },
        BlockRow { block_height: 820001, block_timestamp: 200 },
    ];
    let prices = vec![
        PriceRow { price_cents: 6500050, price_timestamp: 100 },
        PriceRow { price_cents: 6510000, price_timestamp: 300 },
    ];
    let joined = list_joined(&blocks, &prices);
    assert_eq!(
        joined,
        vec![JoinedRow { block_height: 820000, price_cents: 6500050, timestamp: 100 }]
    );
}

#[test]
fn joined_view_is_empty_without_matching_timestamps() {
    let blocks = vec![BlockRow { block_height: 1, block_timestamp: 1 }];
    let prices = vec![PriceRow { price_cents: 2, price_timestamp: 2 }];
    assert_eq!(list_joined(&blocks, &prices), Vec::<JoinedRow>::new());
    assert_eq!(list_joined(&Vec::new(), &Vec::new()), Vec::<JoinedRow>::new());
}

#[test]
fn joined_view_renders_as_a_json_array() {
    let rows = vec![
        JoinedRow { block_height: 820000, price_cents: 6500050, timestamp: 100 },
        JoinedRow { block_height: 820001, price_cents: 6510000, timestamp: 200 },
    ];
    assert_eq!(
        render_joined(&rows),
        "[{\"block_height\": 820000, \"price\": 65000.50, \"timestamp\": 100}, \
         {\"block_height\": 820001, \"price\": 65100.00, \"timestamp\": 200}]"
    );
    assert_eq!(render_joined(&Vec::new()), "[]");
}

#[test]
fn joined_view_keeps_stored_order_and_every_match() {
    let blocks = vec![
        BlockRow { block_height: 10, block_timestamp: 5 },
        BlockRow { block_height: 11, block_timestamp: 6 },
    ];
    let prices = vec![
        PriceRow { price_cents: 100, price_timestamp: 6 },
        PriceRow { price_cents: 200, price_timestamp: 5 },
        PriceRow { price_cents: 300, price_timestamp: 5 },
    ];
    let joined = list_joined(&blocks, &prices);
    assert_eq!(
        joined,
        vec![
            JoinedRow { block_height: 10, price_cents: 200, timestamp: 5 },
            JoinedRow { block_height: 10, price_cents: 300, timestamp: 5 },
            JoinedRow { block_height: 11, price_cents: 100, timestamp: 6 },
        ]
    );
}
