use turntable::link::{
    plan_after_connect, plan_for_address, plan_for_link, AddressPlan, ConnectPlan, LinkPlan,
};

#[test]
fn connected_station_is_watched() {
    assert_eq!(plan_for_link(Some(true)), LinkPlan::AwaitDisconnect { pause_ms: 1000 });
}

#[test]
fn disconnected_or_unknown_station_connects() {
    assert_eq!(plan_for_link(Some(false)), LinkPlan::Connect);
    assert_eq!(plan_for_link(None), LinkPlan::Connect);
}

#[test]
fn failed_attempt_pauses_before_retry() {
    assert_eq!(plan_after_connect(true), ConnectPlan::AwaitConnected);
    assert_eq!(plan_after_connect(false), ConnectPlan::Retry { pause_ms: 5000 });
}

#[test]
fn address_wait_retries_every_half_second() {
    assert_eq!(plan_for_address(true), AddressPlan::Ready);
    assert_eq!(plan_for_address(false), AddressPlan::Retry { pause_ms: 500 });
}
