use fastasx::enums::{
    BuySellIndicator, CrossType, ImbalanceDirection, MWCBLevel, MarketCategory, MessageTypes,
    SystemEventCode, TradingHaltReasonCodes, TradingReasonCodes,
};
use fastasx::framing::decode_stream;
use fastasx::messageheader::MessageHeader;
use fastasx::modifyordermessages::{OrderExecuted, OrderReplace};
use fastasx::stockdirectory::StockDirectoryManager;
use fastasx::stockmessages::StockDirectory;
use fastasx::systemmessages::SystemEventMessage;
use fastasx::types::{GenerateExampleMessage, Parse, ParseError, Price4, Price8};

#[test]
fn test_framed_system_event() {
    // One frame: payload length 11 (10-byte header and event code),
    // tag 'S', locate 1, tracking 1, timestamp 0, code 'O'.
    let bytes: Vec<u8> = vec![
        0x00, 0x0B, 0x53, 0x00, 0x01, 0x00, 0x01, 0x00, 0x00, 0x00, 0x00, 0x00, 0x00, 0x4F,
    ];
    let messages = decode_stream(&bytes);
    assert_eq!(messages.len(), 1);
    match &messages[0] {
        MessageTypes::SystemEvent(m) => {
            assert_eq!(m.event_code, SystemEventCode::StartOfMessages);
            assert_eq!(m.header.stock_locate, 1);
            assert_eq!(m.header.tracking_number, 1);
            assert_eq!(m.header.timestamp, 0);
        }
        other => panic!("expected a system event, got {:?}", other),
    }
}

#[test]
fn test_resync_after_garbage_preamble() {
    // Two garbage bytes make an implausible preamble; the framer skips
    // byte by byte until the valid system event decodes.
    let mut bytes: Vec<u8> = vec![0x00, 0xFF];
    bytes.extend_from_slice(&[
        0x00, 0x0B, 0x53, 0x00, 0x01, 0x00, 0x01, 0x00, 0x00, 0x00, 0x00, 0x00, 0x00, 0x4F,
    ]);
    let messages = decode_stream(&bytes);
    assert_eq!(messages.len(), 1);
    assert!(matches!(messages[0], MessageTypes::SystemEvent(_)));
}

#[test]
fn test_recovery_after_payload_corruption() {
    // Two framed system events; corrupting a payload byte of the first
    // leaves the second decoding exactly as before.
    let frame: Vec<u8> = vec![
        0x00, 0x0B, 0x53, 0x00, 0x01, 0x00, 0x01, 0x00, 0x00, 0x00, 0x00, 0x00, 0x00, 0x4F,
    ];
    let mut clean = frame.clone();
    clean.extend_from_slice(&frame);
    let mut corrupted = clean.clone();
    corrupted[13] = 0x21; // the first frame's event code becomes invalid

    let clean_messages = decode_stream(&clean);
    let corrupted_messages = decode_stream(&corrupted);
    assert_eq!(clean_messages.len(), 2);
    assert_eq!(corrupted_messages.len(), 1);
    assert_eq!(corrupted_messages[0], clean_messages[1]);
}

#[test]
fn test_invalid_market_category_rejected() {
    let mut bytes = StockDirectory::generate_binary_example();
    bytes[18] = b'X';
    let parsed = StockDirectory::parse(&bytes);
    assert_eq!(parsed, Err(ParseError::InvalidMarketCategory { invalid_byte: b'X' }));
}

#[test]
fn test_wrong_length_is_incomplete() {
    let bytes = vec![0u8; 10];
    assert_eq!(
        SystemEventMessage::parse(&bytes),
        Err(ParseError::IncompleteMessage { expected: 11 })
    );
}

#[test]
fn test_system_event_round_trip() {
    let m = SystemEventMessage {
        header: MessageHeader {
            message_type: '_',
            stock_locate: 9,
            tracking_number: 2,
            timestamp: 123456789,
        },
        event_code: SystemEventCode::EndOfMessages,
    };
    let bytes = m.encode();
    assert_eq!(SystemEventMessage::parse(&bytes), Ok(m));
}

#[test]
fn test_order_replace_round_trip() {
    let m = OrderReplace {
        header: MessageHeader {
            message_type: '_',
            stock_locate: 77,
            tracking_number: 5,
            timestamp: 86399_000_000_000,
        },
        original_order_reference_number: 1234567890123,
        new_order_reference_number: 1234567890124,
        shares: 500,
        price: Price4::new(2025000),
    };
    let bytes = m.encode();
    assert_eq!(bytes.len(), 34);
    assert_eq!(OrderReplace::parse(&bytes), Ok(m));
}

#[test]
fn test_order_executed_round_trip() {
    let m = OrderExecuted {
        header: MessageHeader {
            message_type: '_',
            stock_locate: 3,
            tracking_number: 1,
            timestamp: 42,
        },
        order_reference_number: 987,
        executed_shares: 55,
        match_number: 1000000007,
    };
    let bytes = m.encode();
    assert_eq!(OrderExecuted::parse(&bytes), Ok(m));
}

#[test]
fn test_price4_strings() {
    assert_eq!(Price4::new(1500000).convert_to_string(), "150.0000");
    assert_eq!(Price4::new(0).convert_to_string(), "0.0000");
    assert_eq!(Price4::new(7).convert_to_string(), "0.0007");
    assert_eq!(Price4::new(u32::MAX).convert_to_string(), "429496.7295");
}

#[test]
fn test_price8_strings() {
    assert_eq!(Price8::new(100000000).convert_to_string(), "1.00000000");
    assert_eq!(Price8::new(123).convert_to_string(), "0.00000123");
}

#[test]
fn test_enum_decoders() {
    assert_eq!(MarketCategory::try_from(b'Q'), Ok(MarketCategory::NASDAQGlobalSelectMarket));
    assert_eq!(
        MarketCategory::try_from(b'x'),
        Err(ParseError::InvalidMarketCategory { invalid_byte: b'x' })
    );
    assert_eq!(BuySellIndicator::try_from(b'B'), Ok(BuySellIndicator::Buy));
    assert_eq!(
        BuySellIndicator::try_from(b'z'),
        Err(ParseError::InvalidBuySellIndicator { invalid_byte: b'z' })
    );
    assert_eq!(CrossType::try_from(b'O'), Ok(CrossType::OpeningCross));
    assert_eq!(CrossType::try_from(b'!'), Err(ParseError::InvalidCrossType { invalid_byte: b'!' }));
    assert_eq!(MWCBLevel::try_from(b'2'), Ok(MWCBLevel::Level2));
    assert_eq!(MWCBLevel::try_from(b'9'), Err(ParseError::InvalidMWCBLevel { invalid_byte: b'9' }));
    assert_eq!(
        ImbalanceDirection::try_from(b'N'),
        Ok(ImbalanceDirection::NoImbalance)
    );
    assert_eq!(
        TradingReasonCodes::try_from(b"LUDP".as_slice()),
        Ok(TradingReasonCodes::Halt(TradingHaltReasonCodes::VolatilityPause))
    );
    assert_eq!(
        TradingReasonCodes::try_from(b"T1  ".as_slice()),
        Ok(TradingReasonCodes::Halt(TradingHaltReasonCodes::HaltNewsPending))
    );
    assert_eq!(
        TradingReasonCodes::try_from(b"ZZZZ".as_slice()),
        Err(ParseError::InvalidTradingReasonCode)
    );
}

#[test]
fn test_enum_code_round_trip() {
    assert_eq!(SystemEventCode::try_from(SystemEventCode::StartOfMarketHours.code()),
        Ok(SystemEventCode::StartOfMarketHours));
    assert_eq!(BuySellIndicator::try_from(BuySellIndicator::Sell.code()),
        Ok(BuySellIndicator::Sell));
}

#[test]
fn test_stock_directory_registry() {
    let mut directory = StockDirectoryManager::new();
    let bytes = StockDirectory::generate_binary_example();
    let mut message = StockDirectory::parse(&bytes).unwrap();
    message.header.stock_locate = 321;
    message.stock = *b"AAPL    ";
    directory.add_stock(message);

    assert_eq!(directory.locate_to_stock(321), Some(*b"AAPL    "));
    assert_eq!(directory.stock_to_locate(*b"AAPL    "), Some(321));
    let data = directory.get_stock_data(321).unwrap();
    assert_eq!(data.stock, *b"AAPL    ");
    assert_eq!(directory.get_stock_data(99), None);

    // A later record for the same locate is ignored: the first wins.
    let mut duplicate = message;
    duplicate.stock = *b"MSFT    ";
    directory.add_stock(duplicate);
    assert_eq!(directory.locate_to_stock(321), Some(*b"AAPL    "));
    assert_eq!(directory.stock_to_locate(*b"MSFT    "), None);
}

#[test]
fn test_add_order_with_mpid_round_trip() {
    let m = fastasx::addordermessages::AddOrder {
        header: MessageHeader {
            message_type: '_',
            stock_locate: 5,
            tracking_number: 0,
            timestamp: 1,
        },
        order_reference_number: 44,
        buy_sell_indicator: BuySellIndicator::Sell,
        shares: 10,
        stock: *b"TEST    ",
        price: Price4::new(995000),
        mpid: Some(*b"JPMC"),
    };
    let bytes = m.encode();
    assert_eq!(bytes.len(), 39);
    assert_eq!(fastasx::addordermessages::AddOrder::parse(&bytes), Ok(m));
}
