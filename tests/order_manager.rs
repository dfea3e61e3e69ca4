use arb_platform::exchange::{Exchange, ExchangeConfig, ExchangeFactory, ExchangeType};
use arb_platform::exchange::crypto::CryptoExchange;
use arb_platform::order::{
    EventOutcome, Order, OrderEvent, OrderManager, OrderRouter, OrderStatus, OrderType,
    UNITS_PER_WHOLE,
};
use arb_platform::strategy::{TimeInForce, TradeDirection};
use std::collections::HashMap;
use uuid::Uuid;
use OrderStatus::{
    Cancelled, Created, Failed, Filled, PartiallyFilled, PendingSubmission, Rejected, Submitted,
};

const U: i64 = UNITS_PER_WHOLE;

fn now() -> i64 {
    chrono::Utc::now().timestamp_millis()
}

fn create_test_order(symbol: &str, direction: TradeDirection, order_type: OrderType) -> Order {
    Order {
        id: Uuid::new_v4().as_u128(),
        client_order_id: format!("test-{}", Uuid::new_v4().simple()),
        symbol: symbol.to_string(),
        direction,
        order_type,
        quantity: U,
        filled_quantity: 0,
        price: match order_type {
            OrderType::Market => None,
            _ => Some(35000 * U),
        },
        stop_price: match order_type {
            OrderType::StopLoss | OrderType::StopLimit => Some(34500 * U),
            _ => None,
        },
        time_in_force: TimeInForce::GoodTilCanceled,
        status: OrderStatus::Created,
        exchange: "Test Exchange".to_string(),
        created_at: now(),
        updated_at: now(),
        filled_at: None,
        average_fill_price: None,
        strategy_id: Some("test_strategy".to_string()),
        notes: None,
    }
}

fn connected_venue(name: &str) -> CryptoExchange {
    let mut venue = CryptoExchange::new(ExchangeConfig {
        name: name.to_string(),
        exchange_type: ExchangeType::Crypto,
        api_url: "https://api.example.com".to_string(),
        api_key: Some("test_key".to_string()),
        api_secret: Some("test_secret".to_string()),
        additional_params: HashMap::new(),
    });
    assert!(venue.connect().is_ok());
    venue
}

#[test]
fn mod_tests_test_order_status_transitions() {
    assert!(OrderStatus::Created.can_transition_to(&OrderStatus::PendingSubmission));
    assert!(OrderStatus::PendingSubmission.can_transition_to(&OrderStatus::Submitted));
    assert!(OrderStatus::Submitted.can_transition_to(&OrderStatus::PartiallyFilled));
    assert!(OrderStatus::PartiallyFilled.can_transition_to(&OrderStatus::Filled));
    assert!(OrderStatus::Submitted.can_transition_to(&OrderStatus::Cancelled));

    assert!(!OrderStatus::Filled.can_transition_to(&OrderStatus::Submitted));
    assert!(!OrderStatus::Cancelled.can_transition_to(&OrderStatus::PartiallyFilled));
    assert!(!OrderStatus::Rejected.can_transition_to(&OrderStatus::Submitted));
    assert!(!OrderStatus::Failed.can_transition_to(&OrderStatus::PendingSubmission));
}

#[test]
fn test_order_type_validation() {
    let market_order = create_test_order("BTC/USD", TradeDirection::Buy, OrderType::Market);
    assert!(market_order.price.is_none());

    let limit_order = create_test_order("BTC/USD", TradeDirection::Sell, OrderType::Limit);
    assert!(limit_order.price.is_some());

    let stop_loss_order = create_test_order("BTC/USD", TradeDirection::Sell, OrderType::StopLoss);
    assert!(stop_loss_order.stop_price.is_some());

    let stop_limit_order = create_test_order("BTC/USD", TradeDirection::Buy, OrderType::StopLimit);
    assert!(stop_limit_order.price.is_some());
    assert!(stop_limit_order.stop_price.is_some());
}

#[test]
fn test_order_manager_creation() {
    let manager = OrderManager::new();

    let active_orders = manager.get_active_orders();
    assert!(active_orders.is_empty());
}

#[test]
fn test_order_placement() {
    let mut manager = OrderManager::new();
    let order = create_test_order("BTC/USD", TradeDirection::Buy, OrderType::Limit);

    let result = manager.place_order(order.clone());
    assert!(result.is_ok());

    let order_id = result.unwrap();
    assert_eq!(order_id, order.id);

    let retrieved_order = manager.get_order(order_id);
    assert!(retrieved_order.is_some());

    let active_orders = manager.get_active_orders();
    assert_eq!(active_orders.len(), 1);
    assert_eq!(active_orders[0].id, order_id);
}

#[test]
fn test_order_cancellation() {
    let mut manager = OrderManager::new();
    let mut router = OrderRouter::new();
    let order = create_test_order("BTC/USD", TradeDirection::Buy, OrderType::Limit);

    let result = manager.place_order(order.clone());
    assert!(result.is_ok());
    let order_id = result.unwrap();

    let cancel_result = manager.cancel_order(&mut router, order_id, "Testing cancellation".to_string());
    assert!(cancel_result.is_ok());

    let retrieved_order = manager.get_order(order_id);
    assert!(retrieved_order.is_some());
    assert_eq!(retrieved_order.unwrap().status, OrderStatus::Cancelled);

    let active_orders = manager.get_active_orders();
    assert!(active_orders.is_empty());
}

#[test]
fn test_multiple_order_placement_and_retrieval() {
    let mut manager = OrderManager::new();
    let mut router = OrderRouter::new();

    let order1 = create_test_order("BTC/USD", TradeDirection::Buy, OrderType::Limit);
    let order2 = create_test_order("ETH/USD", TradeDirection::Sell, OrderType::Market);
    let order3 = create_test_order("SOL/USD", TradeDirection::Buy, OrderType::StopLimit);

    let result1 = manager.place_order(order1.clone());
    let result2 = manager.place_order(order2.clone());
    let result3 = manager.place_order(order3.clone());

    assert!(result1.is_ok());
    assert!(result2.is_ok());
    assert!(result3.is_ok());

    let id1 = result1.unwrap();
    let id2 = result2.unwrap();
    let id3 = result3.unwrap();

    let active_orders = manager.get_active_orders();
    assert_eq!(active_orders.len(), 3);

    let cancel_result = manager.cancel_order(&mut router, id2, "Testing cancellation".to_string());
    assert!(cancel_result.is_ok());

    let active_orders_after = manager.get_active_orders();
    assert_eq!(active_orders_after.len(), 2);

    assert!(manager.get_order(id1).is_some());
    assert!(manager.get_order(id2).is_some());
    assert!(manager.get_order(id3).is_some());
}

#[test]
fn test_invalid_order_validation() {
    let mut manager = OrderManager::new();

    let mut invalid_market_order = create_test_order("BTC/USD", TradeDirection::Buy, OrderType::Market);
    invalid_market_order.price = Some(35000 * U);
    let result = manager.place_order(invalid_market_order);
    assert!(result.is_err());

    let mut invalid_limit_order = create_test_order("BTC/USD", TradeDirection::Sell, OrderType::Limit);
    invalid_limit_order.price = None;
    let result = manager.place_order(invalid_limit_order);
    assert!(result.is_err());

    let mut invalid_stop_order = create_test_order("BTC/USD", TradeDirection::Sell, OrderType::StopLoss);
    invalid_stop_order.stop_price = None;
    let result = manager.place_order(invalid_stop_order);
    assert!(result.is_err());
}

/// The order is first taken by its venue ("Test Exchange"), so that the
/// partial fill is a permitted transition from Submitted.
#[test]
fn test_order_event_emission() {
    let mut manager = OrderManager::new();
    let mut router = OrderRouter::new();
    assert!(router.register_exchange(connected_venue("Test Exchange")).is_ok());
    let order = create_test_order("BTC/USD", TradeDirection::Buy, OrderType::Limit);

    let result = manager.place_order(order.clone());
    assert!(result.is_ok());
    let order_id = result.unwrap();

    assert!(matches!(manager.run_submission(&mut router, order_id), Some(Ok(()))));

    let update_event = OrderEvent::Update {
        order_id,
        status: Some(OrderStatus::PartiallyFilled),
        filled_qty: Some(U / 2),
        avg_fill_price: Some(35100 * U),
    };
    manager.send_event(update_event);
    manager.process_events();

    let updated_order = manager.get_order(order_id);
    assert!(updated_order.is_some());

    let updated_order = updated_order.unwrap();
    assert_eq!(updated_order.status, OrderStatus::PartiallyFilled);
    assert_eq!(updated_order.filled_quantity, U / 2);
    assert_eq!(updated_order.average_fill_price, Some(35100 * U));
}

#[test]
fn mod_tests_test_cancel_nonexistent_order() {
    let mut manager = OrderManager::new();
    let mut router = OrderRouter::new();
    let nonexistent_id = Uuid::new_v4().as_u128();

    let result = manager.cancel_order(&mut router, nonexistent_id, "Testing cancellation".to_string());
    assert!(result.is_err());
}

#[test]
fn test_get_nonexistent_order() {
    let manager = OrderManager::new();
    let nonexistent_id = Uuid::new_v4().as_u128();

    let result = manager.get_order(nonexistent_id);
    assert!(result.is_none());
}

#[test]
fn test_order_direction() {
    let buy_order = create_test_order("BTC/USD", TradeDirection::Buy, OrderType::Limit);
    assert_eq!(buy_order.direction, TradeDirection::Buy);

    let sell_order = create_test_order("ETH/USD", TradeDirection::Sell, OrderType::Market);
    assert_eq!(sell_order.direction, TradeDirection::Sell);
}

#[test]
fn mod_tests_test_time_in_force() {
    let gtc_order = create_test_order("BTC/USD", TradeDirection::Buy, OrderType::Limit);
    assert_eq!(gtc_order.time_in_force, TimeInForce::GoodTilCanceled);

    let mut day_order = create_test_order("ETH/USD", TradeDirection::Sell, OrderType::Limit);
    day_order.time_in_force = TimeInForce::DayOnly;
    assert_eq!(day_order.time_in_force, TimeInForce::DayOnly);

    let mut fok_order = create_test_order("SOL/USD", TradeDirection::Buy, OrderType::Market);
    fok_order.time_in_force = TimeInForce::FillOrKill;
    assert_eq!(fok_order.time_in_force, TimeInForce::FillOrKill);

    let mut ioc_order = create_test_order("ADA/USD", TradeDirection::Sell, OrderType::Limit);
    ioc_order.time_in_force = TimeInForce::ImmediateOrCancel;
    assert_eq!(ioc_order.time_in_force, TimeInForce::ImmediateOrCancel);
}

fn create_exchange_config() -> ExchangeConfig {
    ExchangeConfig {
        name: "Test Crypto Exchange".to_string(),
        exchange_type: ExchangeType::Crypto,
        api_url: "https://api.example.com".to_string(),
        api_key: Some("test_key".to_string()),
        api_secret: Some("test_secret".to_string()),
        additional_params: HashMap::new(),
    }
}

fn integration_order(symbol: &str) -> Order {
    let mut order = create_test_order(symbol, TradeDirection::Buy, OrderType::Limit);
    order.exchange = "Test Crypto Exchange".to_string();
    order
}

#[test]
fn test_order_placement_and_exchange_integration() {
    let mut order_manager = OrderManager::new();
    let order = integration_order("BTC/USD");

    let exchange_result = ExchangeFactory::create_crypto_exchange(create_exchange_config());
    assert!(exchange_result.is_ok());

    let mut exchange = exchange_result.unwrap();
    let connect_result = exchange.connect();
    assert!(connect_result.is_ok());

    let order_id_result = order_manager.place_order(order);
    assert!(order_id_result.is_ok());
    let order_id = order_id_result.unwrap();

    let order_option = order_manager.get_order(order_id);
    assert!(order_option.is_some());

    let order = order_option.unwrap();
    assert_eq!(order.id, order_id);
    assert_eq!(order.symbol, "BTC/USD");
}

/// The manager's own router has no venue, so its submission fails, as it
/// does in the background; the order then leaves the active list.
#[test]
fn test_order_lifecycle() {
    let mut order_manager = OrderManager::new();
    let mut manager_router = OrderRouter::new();
    let order = integration_order("BTC/USD");

    let exchange_result = ExchangeFactory::create_crypto_exchange(create_exchange_config());
    assert!(exchange_result.is_ok());

    let mut exchange = exchange_result.unwrap();
    let connect_result = exchange.connect();
    assert!(connect_result.is_ok());

    let order_id_result = order_manager.place_order(order.clone());
    assert!(order_id_result.is_ok());
    let order_id = order_id_result.unwrap();
    let _ = order_manager.run_submission(&mut manager_router, order_id);

    let submit_result = exchange.submit_order(order.clone());
    assert!(submit_result.is_ok());

    let status_result = exchange.get_order_status(order_id);
    assert!(status_result.is_ok());

    let cancel_result = exchange.cancel_order(order_id);
    assert!(cancel_result.is_ok());

    let _cancel_via_manager =
        order_manager.cancel_order(&mut manager_router, order_id, "Testing cancellation".to_string());

    let active_orders = order_manager.get_active_orders();
    let has_order = active_orders.iter().any(|o| o.id == order_id);
    assert!(!has_order, "Order still active after cancellation");
}

#[test]
fn test_multiple_orders() {
    let mut order_manager = OrderManager::new();
    let mut manager_router = OrderRouter::new();

    let exchange_result = ExchangeFactory::create_crypto_exchange(create_exchange_config());
    assert!(exchange_result.is_ok());

    let mut exchange = exchange_result.unwrap();
    let connect_result = exchange.connect();
    assert!(connect_result.is_ok());

    let symbols = vec!["BTC/USD", "ETH/USD", "SOL/USD"];

    let mut order_ids = Vec::new();
    for symbol in &symbols {
        let order = integration_order(symbol);

        let order_id_result = order_manager.place_order(order.clone());
        assert!(order_id_result.is_ok());
        let order_id = order_id_result.unwrap();
        order_ids.push(order_id);
        let _ = order_manager.run_submission(&mut manager_router, order_id);

        let submit_result = exchange.submit_order(order);
        assert!(submit_result.is_ok());
    }

    let active_orders = order_manager.get_active_orders();
    assert_eq!(active_orders.len(), 0);

    for order_id in order_ids {
        let _ = exchange.cancel_order(order_id);
    }

    order_manager.process_events();
    let active_orders_after = order_manager.get_active_orders();
    assert!(active_orders_after.len() <= active_orders.len());
}

fn unrouted_limit_buy() -> Order {
    let mut order = create_test_order("BTC/USD", TradeDirection::Buy, OrderType::Limit);
    order.exchange = String::new();
    order
}

#[test]
fn submission_without_venue_fails_and_leaves_active() {
    let mut manager = OrderManager::new();
    let mut router = OrderRouter::new();
    let id = manager.place_order(unrouted_limit_buy()).unwrap();
    assert_eq!(manager.get_active_orders().len(), 1);

    let outcome = manager.run_submission(&mut router, id);
    assert!(matches!(outcome, Some(Err(_))));
    assert_eq!(manager.get_order(id).unwrap().status, OrderStatus::Failed);
    assert!(manager.get_active_orders().is_empty());

    manager.process_events();
    let order = manager.get_order(id).unwrap();
    assert_eq!(order.status, OrderStatus::Failed);
    assert_eq!(order.notes, Some("No primary exchange defined for BTC/USD".to_string()));
}

#[test]
fn submission_through_primary_venue_is_submitted() {
    let mut manager = OrderManager::new();
    let mut router = OrderRouter::new();
    assert!(router.register_exchange(connected_venue("Venue A")).is_ok());
    assert!(router.set_primary_exchange("BTC/USD", "Venue A").is_ok());

    let id = manager.place_order(unrouted_limit_buy()).unwrap();
    assert_eq!(manager.get_active_orders()[0].id, id);
    assert_eq!(manager.get_order(id).unwrap().status, OrderStatus::Created);

    assert!(matches!(manager.run_submission(&mut router, id), Some(Ok(()))));
    assert_eq!(manager.get_order(id).unwrap().status, OrderStatus::Submitted);
    assert_eq!(manager.get_active_orders().len(), 1);
    assert_eq!(manager.process_events(), 1);
    assert_eq!(manager.get_active_orders().len(), 1);

    manager.send_event(OrderEvent::Update {
        order_id: id,
        status: Some(OrderStatus::Filled),
        filled_qty: Some(U),
        avg_fill_price: Some(35_000 * U),
    });
    assert_eq!(manager.process_events(), 1);
    assert!(manager.get_active_orders().is_empty());
    let order = manager.get_order(id).unwrap();
    assert_eq!(order.status, OrderStatus::Filled);
    assert!(order.filled_at.is_some());
}

#[test]
fn three_unrouted_orders_all_fail() {
    let mut manager = OrderManager::new();
    let mut router = OrderRouter::new();
    let mut ids = Vec::new();
    for symbol in ["BTC/USD", "ETH/USD", "SOL/USD"] {
        let mut order = create_test_order(symbol, TradeDirection::Buy, OrderType::Limit);
        order.exchange = String::new();
        ids.push(manager.place_order(order).unwrap());
    }
    for id in &ids {
        let _ = manager.run_submission(&mut router, *id);
    }
    for id in &ids {
        assert_eq!(manager.get_order(*id).unwrap().status, OrderStatus::Failed);
    }
    assert!(manager.get_active_orders().is_empty());
}

#[test]
fn cancel_records_reason_and_second_cancel_fails() {
    let mut manager = OrderManager::new();
    let mut router = OrderRouter::new();
    let id = manager.place_order(unrouted_limit_buy()).unwrap();
    assert!(manager.cancel_order(&mut router, id, "changed my mind".to_string()).is_ok());
    let order = manager.get_order(id).unwrap();
    assert_eq!(order.status, OrderStatus::Cancelled);
    assert_eq!(order.notes, Some("changed my mind".to_string()));
    assert!(manager.get_active_orders().iter().all(|o| o.id != id));

    let second = manager.cancel_order(&mut router, id, "again".to_string());
    assert_eq!(second, Err("Order not found or not active".to_string()));
}

#[test]
fn cancel_of_submitted_order_asks_venue_and_cancels_locally() {
    let mut manager = OrderManager::new();
    let mut router = OrderRouter::new();
    assert!(router.register_exchange(connected_venue("Venue A")).is_ok());
    assert!(router.set_primary_exchange("BTC/USD", "Venue A").is_ok());
    let id = manager.place_order(unrouted_limit_buy()).unwrap();
    let _ = manager.run_submission(&mut router, id);
    assert!(manager.cancel_order(&mut router, id, "stop".to_string()).is_ok());
    assert_eq!(manager.get_order(id).unwrap().status, OrderStatus::Cancelled);
    assert!(router.cancel_order(id).is_ok());
}

#[test]
fn order_in_flight_cannot_be_cancelled() {
    let mut manager = OrderManager::new();
    let mut router = OrderRouter::new();
    let id = manager.place_order(unrouted_limit_buy()).unwrap();
    assert!(manager.begin_submission(id, 10).is_some());
    let r = manager.cancel_order(&mut router, id, "stop".to_string());
    assert_eq!(r, Err("Order cannot be cancelled in its current status".to_string()));
    manager.finish_submission(id, Ok(()), 11);
    assert_eq!(manager.get_order(id).unwrap().status, OrderStatus::Submitted);
    assert_eq!(manager.get_order(id).unwrap().updated_at, 11);
}

#[test]
fn invalid_orders_are_rejected_with_reason_and_not_stored() {
    let mut manager = OrderManager::new();
    let cases: Vec<(Order, &str)> = vec![
        (
            {
                let mut o = unrouted_limit_buy();
                o.symbol = String::new();
                o
            },
            "Order symbol cannot be empty",
        ),
        (
            {
                let mut o = unrouted_limit_buy();
                o.quantity = 0;
                o
            },
            "Order quantity must be positive",
        ),
        (
            {
                let mut o = unrouted_limit_buy();
                o.quantity = -U;
                o
            },
            "Order quantity must be positive",
        ),
        (
            {
                let mut o = unrouted_limit_buy();
                o.price = None;
                o
            },
            "Limit orders must specify a price",
        ),
        (
            {
                let mut o = create_test_order("BTC/USD", TradeDirection::Buy, OrderType::Market);
                o.price = Some(U);
                o
            },
            "Market orders should not specify a price",
        ),
        (
            {
                let mut o = create_test_order("BTC/USD", TradeDirection::Buy, OrderType::StopLimit);
                o.stop_price = None;
                o
            },
            "Stop orders must specify a stop price",
        ),
    ];
    for (order, message) in cases {
        let id = order.id;
        assert_eq!(manager.place_order(order), Err(message.to_string()));
        assert!(manager.get_order(id).is_none());
    }
    assert!(manager.get_active_orders().is_empty());
    assert!(manager.take_events().is_empty());
}

#[test]
fn placement_resets_execution_state_and_stamps_time() {
    let mut manager = OrderManager::new();
    let mut order = unrouted_limit_buy();
    order.id = 0;
    order.status = OrderStatus::Filled;
    order.filled_quantity = U;
    order.average_fill_price = Some(U);
    let id = manager.place_order_at(order, 7, 1234).unwrap();
    assert_eq!(id, 7);
    let stored = manager.get_order(7).unwrap();
    assert_eq!(stored.status, OrderStatus::Created);
    assert_eq!(stored.filled_quantity, 0);
    assert_eq!(stored.average_fill_price, None);
    assert_eq!(stored.created_at, 1234);
    assert_eq!(stored.updated_at, 1234);
    let events = manager.take_events();
    assert_eq!(events.len(), 1);
    assert!(matches!(&events[0], OrderEvent::New(o) if o.id == 7));

    let mut again = unrouted_limit_buy();
    again.id = 7;
    assert_eq!(
        manager.place_order_at(again, 8, 0),
        Err("Order identifier already in use".to_string())
    );
}

#[test]
fn place_order_assigns_fresh_id_and_clock() {
    let mut manager = OrderManager::new();
    let mut order = unrouted_limit_buy();
    order.id = 0;
    let id = manager.place_order(order).unwrap();
    assert_ne!(id, 0);
    assert!(manager.get_order(id).unwrap().created_at > 0);
}

#[test]
fn fills_never_decrease_or_exceed_quantity() {
    let mut manager = OrderManager::new();
    let id = manager.place_order_at(unrouted_limit_buy(), 1, 0).unwrap();
    manager.begin_submission(id, 1);
    manager.finish_submission(id, Ok(()), 2);
    let up = |f: i64| OrderEvent::Update {
        order_id: id,
        status: None,
        filled_qty: Some(f),
        avg_fill_price: None,
    };
    assert_eq!(manager.apply_event(up(U / 2), 3), EventOutcome::Applied);
    assert_eq!(manager.apply_event(up(U / 4), 4), EventOutcome::Refused);
    assert_eq!(manager.apply_event(up(U + 1), 5), EventOutcome::Refused);
    assert_eq!(manager.get_order(id).unwrap().filled_quantity, U / 2);
    assert_eq!(manager.get_order(id).unwrap().updated_at, 3);
}

#[test]
fn forbidden_transitions_are_refused() {
    let mut manager = OrderManager::new();
    let id = manager.place_order_at(unrouted_limit_buy(), 1, 0).unwrap();
    let to = |s: OrderStatus| OrderEvent::Update {
        order_id: id,
        status: Some(s),
        filled_qty: None,
        avg_fill_price: None,
    };
    assert_eq!(manager.apply_event(to(OrderStatus::Filled), 1), EventOutcome::Refused);
    assert_eq!(manager.apply_event(to(OrderStatus::Submitted), 1), EventOutcome::Refused);
    assert_eq!(manager.apply_event(to(OrderStatus::Created), 1), EventOutcome::Applied);
    assert_eq!(manager.apply_event(to(OrderStatus::PendingSubmission), 2), EventOutcome::Applied);
    assert_eq!(
        manager.apply_event(OrderEvent::Reject { order_id: id, reason: "venue said no".to_string() }, 3),
        EventOutcome::Applied
    );
    let order = manager.get_order(id).unwrap();
    assert_eq!(order.status, OrderStatus::Rejected);
    assert_eq!(order.notes, Some("venue said no".to_string()));
    assert!(manager.get_active_orders().is_empty());
    assert_eq!(manager.apply_event(to(OrderStatus::Submitted), 4), EventOutcome::Refused);
    assert_eq!(
        manager.apply_event(OrderEvent::Cancel { order_id: id, reason: "late".to_string() }, 5),
        EventOutcome::Refused
    );
    assert_eq!(manager.get_order(id).unwrap().status, OrderStatus::Rejected);
    assert!(!manager.update_order_status(id, OrderStatus::Cancelled));
}

#[test]
fn closing_events_force_status_on_working_orders() {
    let mut manager = OrderManager::new();
    let a = manager.place_order_at(unrouted_limit_buy(), 1, 0).unwrap();
    let b = manager.place_order_at(unrouted_limit_buy(), 2, 0).unwrap();
    let c = manager.place_order_at(unrouted_limit_buy(), 3, 0).unwrap();
    manager.begin_submission(b, 1);
    manager.begin_submission(c, 1);
    manager.finish_submission(c, Ok(()), 2);
    assert!(manager.update_order_status(c, OrderStatus::PartiallyFilled));

    assert_eq!(manager.apply_event(OrderEvent::Cancel { order_id: a, reason: "user".to_string() }, 5), EventOutcome::Applied);
    assert_eq!(
        manager.apply_event(OrderEvent::Error { order_id: Some(b), message: "venue down".to_string() }, 5),
        EventOutcome::Applied
    );
    assert_eq!(manager.apply_event(OrderEvent::Reject { order_id: c, reason: "risk".to_string() }, 5), EventOutcome::Applied);

    let expect = [(a, OrderStatus::Cancelled, "user"), (b, OrderStatus::Failed, "venue down"), (c, OrderStatus::Rejected, "risk")];
    for (id, status, note) in expect {
        let order = manager.get_order(id).unwrap();
        assert_eq!(order.status, status);
        assert_eq!(order.notes, Some(note.to_string()));
        assert_eq!(order.updated_at, 5);
    }
    assert!(manager.get_active_orders().is_empty());
}

#[test]
fn unknown_and_informational_events_are_dropped() {
    let mut manager = OrderManager::new();
    assert_eq!(
        manager.apply_event(OrderEvent::Cancel { order_id: 5, reason: "x".to_string() }, 0),
        EventOutcome::UnknownOrder
    );
    assert_eq!(
        manager.apply_event(OrderEvent::Error { order_id: None, message: "x".to_string() }, 0),
        EventOutcome::Informational
    );
    assert_eq!(manager.apply_event(OrderEvent::New(unrouted_limit_buy()), 0), EventOutcome::Informational);
    assert!(manager.get_active_orders().is_empty());
}

#[test]
fn update_order_status_follows_table() {
    let mut manager = OrderManager::new();
    let id = manager.place_order_at(unrouted_limit_buy(), 3, 0).unwrap();
    assert!(manager.update_order_status(id, OrderStatus::PendingSubmission));
    assert!(!manager.update_order_status(id, OrderStatus::PartiallyFilled));
    assert!(manager.update_order_status(id, OrderStatus::Failed));
    assert!(manager.get_active_orders().is_empty());
    assert!(!manager.update_order_status(99, OrderStatus::Failed));
}

#[test]
fn all_status_pairs_match_table() {
    let all = [Created, PendingSubmission, Submitted, PartiallyFilled, Filled, Cancelled, Rejected, Failed];
    let allowed = [
        (Created, PendingSubmission),
        (PendingSubmission, Submitted),
        (PendingSubmission, Rejected),
        (PendingSubmission, Failed),
        (Submitted, PartiallyFilled),
        (Submitted, Filled),
        (Submitted, Cancelled),
        (Submitted, Rejected),
        (Submitted, Failed),
        (PartiallyFilled, Filled),
        (PartiallyFilled, Cancelled),
        (PartiallyFilled, Failed),
    ];
    for a in all {
        for b in all {
            let expected = a == b || allowed.contains(&(a, b));
            assert_eq!(a.can_transition_to(&b), expected);
        }
        assert_eq!(
            a.is_terminal(),
            matches!(a, Filled | Cancelled | Rejected | Failed)
        );
    }
}
