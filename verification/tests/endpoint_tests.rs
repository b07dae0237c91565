use grpc_datastore::decimal::usize_to_decimal;
use grpc_datastore::endpoint::{
    plan_server_launch, server_address, server_environment, PortAllocator, START_PORT,
};

#[test]
fn decimal_of_zero_is_single_digit() {
    assert_eq!(usize_to_decimal(0), "0");
}

#[test]
fn decimal_of_multi_digit_numbers() {
    assert_eq!(usize_to_decimal(7), "7");
    assert_eq!(usize_to_decimal(10), "10");
    assert_eq!(usize_to_decimal(27615), "27615");
    assert_eq!(usize_to_decimal(1000000), "1000000");
}

#[test]
fn decimal_of_largest_usize() {
    assert_eq!(usize_to_decimal(usize::MAX), usize::MAX.to_string());
}

#[test]
fn address_of_first_server() {
    assert_eq!(server_address(27615), "127.0.0.1:27615");
}

#[test]
fn addresses_of_different_ports_differ() {
    assert_ne!(server_address(27615), server_address(27616));
    assert_ne!(server_address(1), server_address(11));
}

#[test]
fn environment_names_the_port() {
    let env = server_environment(27620);
    assert_eq!(env.len(), 1);
    assert_eq!(env[0].0, "PORT");
    assert_eq!(env[0].1, "27620");
}

#[test]
fn ports_start_at_start_port_and_count_up() {
    let mut ports = PortAllocator::new();
    assert_eq!(START_PORT, 27615);
    assert_eq!(ports.allocate(), 27615);
    assert_eq!(ports.allocate(), 27616);
    assert_eq!(ports.allocate(), 27617);
}

#[test]
fn launch_plan_uses_one_port_throughout() {
    let mut ports = PortAllocator::new();
    let first = plan_server_launch(&mut ports);
    assert_eq!(first.port, 27615);
    assert_eq!(first.address, "127.0.0.1:27615");
    assert_eq!(first.environment, vec![("PORT".to_string(), "27615".to_string())]);
    let second = plan_server_launch(&mut ports);
    assert_eq!(second.port, 27616);
    assert_eq!(second.address, "127.0.0.1:27616");
    assert_ne!(first.address, second.address);
}
