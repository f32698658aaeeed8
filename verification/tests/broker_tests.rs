use galactic_trader::broker::{close_error, fill_step, immediate_fill_required, FillStep, OrderState};
use galactic_trader::errors::BrokerError;
use galactic_trader::model::{opposite_direction, TradeDirection};

#[test]
fn waiting_for_a_fill() {
    assert_eq!(fill_step(OrderState::Filled, true), FillStep::Done);
    assert_eq!(fill_step(OrderState::Ended, false), FillStep::Rejected);
    assert_eq!(fill_step(OrderState::Working, false), FillStep::PollAgain);
    assert_eq!(fill_step(OrderState::Working, true), FillStep::CancelAndGiveUp);
}

#[test]
fn zero_timeout_needs_an_immediate_fill() {
    assert!(immediate_fill_required(0, OrderState::Working));
    assert!(immediate_fill_required(0, OrderState::Ended));
    assert!(!immediate_fill_required(0, OrderState::Filled));
    assert!(!immediate_fill_required(15_000, OrderState::Working));
}

#[test]
fn failed_close_classification() {
    assert_eq!(close_error("SPY", "HTTP 404".to_string()), BrokerError::NoPosition("SPY".to_string()));
    assert_eq!(close_error("SPY", "position not found".to_string()), BrokerError::NoPosition("SPY".to_string()));
    assert_eq!(close_error("SPY", "Endpoint(NotFound(..))".to_string()), BrokerError::NoPosition("SPY".to_string()));
    assert_eq!(
        close_error("SPY", "Not Found".to_string()),
        BrokerError::ConnectionError("Not Found".to_string())
    );
    assert_eq!(close_error("QQQ", "timeout".to_string()), BrokerError::ConnectionError("timeout".to_string()));
}

#[test]
fn closing_side_is_the_opposite() {
    assert_eq!(opposite_direction(TradeDirection::Long), TradeDirection::Short);
    assert_eq!(opposite_direction(TradeDirection::Short), TradeDirection::Long);
}
