use fastasx::addordermessages::AddOrder;
use fastasx::enums::BuySellIndicator;
use fastasx::messageheader::MessageHeader;
use fastasx::modifyordermessages::{OrderCancel, OrderDelete, OrderExecuted, OrderReplace};
use fastasx::orderbook::{OrderBookManager, PriceBucket};
use fastasx::types::{GenerateExampleMessage, OrderBookError, Price4};

fn level<'a>(side: &'a [(u32, PriceBucket)], price: u32) -> Option<&'a PriceBucket> {
    side.iter().find(|(p, _)| *p == price).map(|(_, b)| b)
}

fn order_in<'a>(bucket: &'a PriceBucket, r: u64) -> Option<&'a AddOrder> {
    bucket.orders.iter().find(|o| o.order_reference_number == r)
}

#[test]
fn test_add_order_to_book() {
    let mut book_manager = OrderBookManager::new();
    let header = MessageHeader::parse(&MessageHeader::generate_binary_example());

    let buy_order = AddOrder {
        header,
        order_reference_number: 1,
        buy_sell_indicator: BuySellIndicator::Buy,
        shares: 100,
        stock: *b"AAPL    ",
        price: Price4::new(15000u32),
        mpid: None,
    };
    let sell_order = AddOrder {
        header,
        order_reference_number: 2,
        buy_sell_indicator: BuySellIndicator::Sell,
        shares: 50,
        stock: *b"AAPL    ",
        price: Price4::new(15100u32),
        mpid: Some(*b"JPMC"),
    };

    let stock_locate = header.stock_locate;
    book_manager.add_order(buy_order).unwrap();
    book_manager.add_order(sell_order).unwrap();

    assert_eq!(book_manager.order_books.get(&stock_locate).unwrap().bid_book.len(), 1);
    assert_eq!(
        order_in(
            level(&book_manager.order_books.get(&stock_locate).unwrap().ask_book, 15100).unwrap(),
            2
        )
        .unwrap()
        .mpid,
        Some(*b"JPMC")
    );
    assert_eq!(
        level(&book_manager.order_books.get(&stock_locate).unwrap().ask_book, 15100)
            .unwrap()
            .share_quantity,
        50
    );
}

#[test]
fn test_delete_order_from_book() {
    let mut book_manager = OrderBookManager::new();

    let add_order = AddOrder {
        header: MessageHeader::parse(&MessageHeader::generate_binary_example()),
        order_reference_number: 1,
        buy_sell_indicator: BuySellIndicator::Buy,
        shares: 100,
        stock: *b"AAPL    ",
        price: Price4::new(15000u32),
        mpid: Some(*b"JPMC"),
    };

    book_manager.add_order(add_order).unwrap();

    let delete_order = OrderDelete {
        header: MessageHeader {
            stock_locate: add_order.header.stock_locate,
            ..MessageHeader::parse(&MessageHeader::generate_binary_example())
        },
        order_reference_number: add_order.order_reference_number,
    };

    book_manager.delete_order(delete_order).unwrap();

    let order_book = book_manager.order_books.get(&add_order.header.stock_locate).unwrap();
    let price_bucket = level(&order_book.bid_book, add_order.price.value);

    if let Some(price_bucket) = price_bucket {
        assert!(
            order_in(price_bucket, add_order.order_reference_number).is_none(),
            "Order was not deleted from the price bucket"
        );
    } else {
        assert!(true, "Price bucket was removed as expected");
    }

    assert!(
        !book_manager.order_price_map.contains_key(&add_order.order_reference_number),
        "Order was not removed from order_price_map"
    );
}

#[test]
fn orderbook_test_order_cancel() {
    let mut book_manager = OrderBookManager::new();

    let add_order = AddOrder {
        header: MessageHeader {
            stock_locate: 1234,
            ..MessageHeader::parse(&MessageHeader::generate_binary_example())
        },
        order_reference_number: 987654321,
        buy_sell_indicator: BuySellIndicator::Buy,
        shares: 100,
        stock: *b"AAPL    ",
        price: Price4::new(15000u32),
        mpid: Some(*b"JPMC"),
    };

    book_manager.add_order(add_order).unwrap();

    let cancel_order = OrderCancel {
        header: MessageHeader {
            stock_locate: add_order.header.stock_locate,
            ..MessageHeader::parse(&MessageHeader::generate_binary_example())
        },
        order_reference_number: add_order.order_reference_number,
        canceled_shares: 30,
    };

    book_manager.cancel_order(cancel_order).unwrap();

    let order_book = book_manager.order_books.get(&add_order.header.stock_locate).unwrap();
    let price_bucket = level(&order_book.bid_book, add_order.price.value).unwrap();
    let updated_order = order_in(price_bucket, add_order.order_reference_number).unwrap();

    assert_eq!(
        updated_order.shares, 70,
        "Order shares were not correctly reduced after cancellation"
    );

    assert!(
        book_manager.order_price_map.contains_key(&add_order.order_reference_number),
        "Order was incorrectly removed from order_price_map"
    );

    let invalid_cancel_order = OrderCancel {
        header: MessageHeader {
            stock_locate: add_order.header.stock_locate,
            ..MessageHeader::parse(&MessageHeader::generate_binary_example())
        },
        order_reference_number: add_order.order_reference_number,
        canceled_shares: 80,
    };

    let result = book_manager.cancel_order(invalid_cancel_order);

    assert!(result.is_err(), "Expected an error when canceling more shares than available");

    if let Err(error) = result {
        assert!(
            matches!(error, OrderBookError::InvalidCancellation),
            "Expected InvalidCancellation error, got {:?}",
            error
        );
    }
}

#[test]
fn test_replace_order() {
    let mut book_manager = OrderBookManager::new();
    let header = MessageHeader::parse(&MessageHeader::generate_binary_example());

    let initial_order = AddOrder {
        header,
        order_reference_number: 1,
        buy_sell_indicator: BuySellIndicator::Buy,
        shares: 100,
        stock: *b"AAPL    ",
        price: Price4::new(15000u32),
        mpid: None,
    };
    book_manager.add_order(initial_order).unwrap();

    let replace_order = OrderReplace {
        header,
        original_order_reference_number: 1,
        new_order_reference_number: 2,
        shares: 150,
        price: Price4::new(15100u32),
    };

    book_manager.replace_order(replace_order).unwrap();

    assert!(
        !book_manager.order_price_map.contains_key(&1),
        "Original order was not removed from order_price_map"
    );

    let (stock_locate, price, buy_sell_indicator) = book_manager.order_price_map.get(&2).unwrap();
    assert_eq!(*stock_locate, initial_order.header.stock_locate);
    assert_eq!(*price, replace_order.price);
    assert_eq!(*buy_sell_indicator, initial_order.buy_sell_indicator);

    let order_book = book_manager.order_books.get(&initial_order.header.stock_locate).unwrap();
    let price_bucket = level(&order_book.bid_book, replace_order.price.value).unwrap();
    let updated_order = order_in(price_bucket, replace_order.new_order_reference_number).unwrap();

    assert_eq!(updated_order.shares, replace_order.shares);
    assert_eq!(updated_order.price, replace_order.price);

    // A replace whose original reference the book never saw is permitted
    // by the feed: it is ignored and reported as success.
    let invalid_replace_order = OrderReplace {
        header,
        original_order_reference_number: 999,
        new_order_reference_number: 3,
        shares: 200,
        price: Price4::new(15200u32),
    };

    let result = book_manager.replace_order(invalid_replace_order);
    assert!(result.is_ok(), "A replace of an unknown order is ignored with success");
    assert!(
        !book_manager.order_price_map.contains_key(&3),
        "A replace of an unknown order must not rest a new order"
    );
}

fn add(manager: &mut OrderBookManager, locate: u16, r: u64, side: BuySellIndicator, shares: u32, price: u32) {
    let header = MessageHeader {
        message_type: '_',
        stock_locate: locate,
        tracking_number: 0,
        timestamp: 0,
    };
    let order = AddOrder {
        header,
        order_reference_number: r,
        buy_sell_indicator: side,
        shares,
        stock: *b"AAPL    ",
        price: Price4::new(price),
        mpid: None,
    };
    manager.add_order(order).unwrap();
}

#[test]
fn test_add_and_execute_scenario() {
    let mut manager = OrderBookManager::new();
    add(&mut manager, 7, 10, BuySellIndicator::Buy, 100, 1500000);
    let exec = OrderExecuted {
        header: MessageHeader {
            message_type: '_',
            stock_locate: 7,
            tracking_number: 0,
            timestamp: 0,
        },
        order_reference_number: 10,
        executed_shares: 40,
        match_number: 77,
    };
    assert_eq!(manager.execute_order(exec), Ok(77));
    let book = manager.order_books.get(&7).unwrap();
    assert_eq!(book.get_best_bid(), Some(1500000));
    let bucket = level(&book.bid_book, 1500000).unwrap();
    assert_eq!(bucket.share_quantity, 60);
    assert_eq!(order_in(bucket, 10).unwrap().shares, 60);
}

#[test]
fn test_cancel_to_zero_scenario() {
    let mut manager = OrderBookManager::new();
    add(&mut manager, 7, 10, BuySellIndicator::Buy, 100, 1500000);
    let exec = OrderExecuted {
        header: MessageHeader {
            message_type: '_',
            stock_locate: 7,
            tracking_number: 0,
            timestamp: 0,
        },
        order_reference_number: 10,
        executed_shares: 40,
        match_number: 77,
    };
    manager.execute_order(exec).unwrap();
    let cancel = OrderCancel {
        header: MessageHeader {
            message_type: '_',
            stock_locate: 7,
            tracking_number: 0,
            timestamp: 0,
        },
        order_reference_number: 10,
        canceled_shares: 60,
    };
    manager.cancel_order(cancel).unwrap();
    let book = manager.order_books.get(&7).unwrap();
    assert!(book.bid_book.is_empty());
    assert_eq!(book.get_best_bid(), None);
    assert_eq!(book.get_spread(), 0);
    assert!(!manager.order_price_map.contains_key(&10));
}

#[test]
fn test_replace_scenario() {
    let mut manager = OrderBookManager::new();
    add(&mut manager, 7, 10, BuySellIndicator::Buy, 100, 1500000);
    let exec = OrderExecuted {
        header: MessageHeader {
            message_type: '_',
            stock_locate: 7,
            tracking_number: 0,
            timestamp: 0,
        },
        order_reference_number: 10,
        executed_shares: 40,
        match_number: 77,
    };
    manager.execute_order(exec).unwrap();
    let replace = OrderReplace {
        header: MessageHeader {
            message_type: '_',
            stock_locate: 7,
            tracking_number: 0,
            timestamp: 0,
        },
        original_order_reference_number: 10,
        new_order_reference_number: 11,
        shares: 25,
        price: Price4::new(1495000),
    };
    manager.replace_order(replace).unwrap();
    let book = manager.order_books.get(&7).unwrap();
    assert!(!manager.order_price_map.contains_key(&10));
    assert!(level(&book.bid_book, 1500000).is_none(), "old level must be removed");
    let bucket = level(&book.bid_book, 1495000).unwrap();
    let resting = order_in(bucket, 11).unwrap();
    assert_eq!(resting.shares, 25);
    assert_eq!(resting.price, Price4::new(1495000));
    assert_eq!(resting.buy_sell_indicator, BuySellIndicator::Buy);
    assert_eq!(resting.stock, *b"AAPL    ");
    assert_eq!(book.get_best_bid(), Some(1495000));
}

#[test]
fn test_best_prices_and_spread() {
    let mut manager = OrderBookManager::new();
    add(&mut manager, 9, 1, BuySellIndicator::Buy, 10, 1400000);
    add(&mut manager, 9, 2, BuySellIndicator::Buy, 10, 1450000);
    add(&mut manager, 9, 3, BuySellIndicator::Sell, 10, 1500000);
    add(&mut manager, 9, 4, BuySellIndicator::Sell, 10, 1550000);
    let book = manager.order_books.get(&9).unwrap();
    assert_eq!(book.get_best_bid(), Some(1450000));
    assert_eq!(book.get_best_ask(), Some(1500000));
    assert_eq!(book.get_spread(), 50000);
    assert!(book.get_best_ask().unwrap() >= book.get_best_bid().unwrap());
}

#[test]
fn test_duplicate_order_rejected() {
    let mut manager = OrderBookManager::new();
    add(&mut manager, 9, 1, BuySellIndicator::Buy, 10, 1400000);
    let header = MessageHeader {
        message_type: '_',
        stock_locate: 9,
        tracking_number: 0,
        timestamp: 0,
    };
    let order = AddOrder {
        header,
        order_reference_number: 1,
        buy_sell_indicator: BuySellIndicator::Sell,
        shares: 5,
        stock: *b"AAPL    ",
        price: Price4::new(1600000),
        mpid: None,
    };
    assert_eq!(manager.add_order(order), Err(OrderBookError::DuplicateOrder));
}

#[test]
fn test_execute_unknown_order() {
    let mut manager = OrderBookManager::new();
    let exec = OrderExecuted {
        header: MessageHeader {
            message_type: '_',
            stock_locate: 7,
            tracking_number: 0,
            timestamp: 0,
        },
        order_reference_number: 424242,
        executed_shares: 1,
        match_number: 5,
    };
    assert_eq!(manager.execute_order(exec), Err(OrderBookError::NonExistentOrder));
}

#[test]
fn test_cancels_drain_order() {
    let mut manager = OrderBookManager::new();
    add(&mut manager, 3, 77, BuySellIndicator::Sell, 90, 2000000);
    for _ in 0..3 {
        let cancel = OrderCancel {
            header: MessageHeader {
                message_type: '_',
                stock_locate: 3,
                tracking_number: 0,
                timestamp: 0,
            },
            order_reference_number: 77,
            canceled_shares: 30,
        };
        manager.cancel_order(cancel).unwrap();
    }
    assert!(!manager.order_price_map.contains_key(&77));
    let book = manager.order_books.get(&3).unwrap();
    assert!(level(&book.ask_book, 2000000).is_none());
}
