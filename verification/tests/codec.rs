use budgetchat::means::MessageCodec;
use budgetchat::means::MessageCodecError;
use budgetchat::means::PriceStore;
use budgetchat::means::Request;
use budgetchat::means::MESSAGE_LEN;

#[test]
fn short_buffer_decodes_to_nothing() {
    let codec = MessageCodec;
    let buf: Vec<u8> = vec![b'I', 0, 0, 0];
    assert!(matches!(codec.decode_data(&buf), Ok(None)));
    let empty: Vec<u8> = Vec::new();
    assert!(matches!(codec.decode_data(&empty), Ok(None)));
}

#[test]
fn insert_frame_decodes_both_fields() {
    let codec = MessageCodec;
    // timestamp 12345, price 101
    let buf: Vec<u8> = vec![b'I', 0x00, 0x00, 0x30, 0x39, 0x00, 0x00, 0x00, 0x65];
    assert_eq!(buf.len(), MESSAGE_LEN);
    match codec.decode_data(&buf) {
        Ok(Some(Request::Insert(i))) => {
            assert_eq!(i.timestamp, 12345);
            assert_eq!(i.price, 101);
        }
        _ => panic!("expected an insert request"),
    }
}

#[test]
fn negative_values_decode_as_twos_complement() {
    let codec = MessageCodec;
    let buf: Vec<u8> = vec![b'I', 0xFF, 0xFF, 0xFF, 0xFF, 0xFF, 0xFF, 0xFF, 0x9C];
    match codec.decode_data(&buf) {
        Ok(Some(Request::Insert(i))) => {
            assert_eq!(i.timestamp, -1);
            assert_eq!(i.price, -100);
        }
        _ => panic!("expected an insert request"),
    }
}

#[test]
fn query_frame_decodes_both_bounds() {
    let codec = MessageCodec;
    let buf: Vec<u8> = vec![b'Q', 0x00, 0x00, 0x03, 0xE8, 0x00, 0x01, 0x86, 0xA0];
    match codec.decode_data(&buf) {
        Ok(Some(Request::Query(q))) => {
            assert_eq!(q.mintime, 1000);
            assert_eq!(q.maxtime, 100000);
        }
        _ => panic!("expected a query request"),
    }
}

#[test]
fn unknown_tag_is_an_error() {
    let codec = MessageCodec;
    let buf: Vec<u8> = vec![b'X', 0, 0, 0, 0, 0, 0, 0, 0];
    assert!(matches!(codec.decode_data(&buf), Err(MessageCodecError::InvalidMessageType)));
}

#[test]
fn io_errors_convert_into_the_codec_error() {
    let io = std::io::Error::new(std::io::ErrorKind::UnexpectedEof, "closed");
    let e = MessageCodecError::from(io);
    assert!(matches!(e, MessageCodecError::Io(_)));
}

#[test]
fn store_means_over_the_closed_range() {
    let mut store = PriceStore::new();
    store.insert(1, 10);
    store.insert(2, 20);
    store.insert(3, 30);
    assert_eq!(store.query_mean(1, 2), Some(15));
    assert_eq!(store.query_mean(1, 3), Some(20));
    assert_eq!(store.query_mean(4, 10), None);
    assert_eq!(store.query_mean(3, 1), None);
}

#[test]
fn store_overwrites_at_a_repeated_timestamp() {
    let mut store = PriceStore::new();
    store.insert(5, 10);
    store.insert(5, 40);
    assert_eq!(store.query_mean(5, 5), Some(40));
}

#[test]
fn store_mean_truncates_toward_zero() {
    let mut store = PriceStore::new();
    store.insert(1, -5);
    store.insert(2, 0);
    assert_eq!(store.query_mean(1, 2), Some(-2));
}

#[test]
fn store_mean_survives_extreme_prices() {
    let mut store = PriceStore::new();
    store.insert(1, i32::MAX);
    store.insert(2, i32::MAX);
    assert_eq!(store.query_mean(1, 2), Some(i32::MAX));
    let mut low = PriceStore::new();
    low.insert(1, i32::MIN);
    low.insert(2, i32::MIN);
    assert_eq!(low.query_mean(1, 2), Some(i32::MIN));
}

#[test]
fn invalid_type_error_text_is_exact() {
    let e = MessageCodecError::InvalidMessageType;
    assert_eq!(e.message().as_str(), "unrecognized message type - must be 'I' or 'Q'");
}
