use vm_cross_arch::error::VmError;
use vm_cross_arch::network_compat::{
    NetworkCompatibilityLayer, SocketDomain, SocketOption, SocketOptionLevel, SocketProtocol, SocketType,
};
use vm_cross_arch::signal_compat::Signal;

#[test]
fn test_signal_from_number() {
    assert_eq!(Signal::from_number(1), Some(Signal::SIGHUP));
    assert_eq!(Signal::from_number(2), Some(Signal::SIGINT));
    assert_eq!(Signal::from_number(9), Some(Signal::SIGKILL));
    assert_eq!(Signal::from_number(11), Some(Signal::SIGSEGV));
    assert_eq!(Signal::from_number(99), None);
}

#[test]
fn test_signal_catchable() {
    assert!(!Signal::SIGKILL.is_catchable());
    assert!(!Signal::SIGSTOP.is_catchable());
    assert!(Signal::SIGINT.is_catchable());
    assert!(Signal::SIGTERM.is_catchable());
}

#[test]
fn signal_numbers_round_trip() {
    for n in 0..40u32 {
        match Signal::from_number(n) {
            Some(s) => assert_eq!(s.number(), n),
            None => assert!(n == 0 || n > 31),
        }
    }
}

#[test]
fn test_socket_domain_parsing() {
    assert_eq!(NetworkCompatibilityLayer::parse_domain(2).unwrap(), SocketDomain::Inet);
    assert_eq!(NetworkCompatibilityLayer::parse_domain(10).unwrap(), SocketDomain::Inet6);
}

#[test]
fn test_socket_type_parsing() {
    assert_eq!(NetworkCompatibilityLayer::parse_socket_type(1).unwrap(), SocketType::Stream);
    assert_eq!(NetworkCompatibilityLayer::parse_socket_type(2).unwrap(), SocketType::Datagram);
}

#[test]
fn test_socket_protocol_parsing() {
    assert_eq!(NetworkCompatibilityLayer::parse_protocol(6).unwrap(), SocketProtocol::Tcp);
    assert_eq!(NetworkCompatibilityLayer::parse_protocol(17).unwrap(), SocketProtocol::Udp);
}

#[test]
fn test_network_socket_domain_parsing() {
    assert_eq!(NetworkCompatibilityLayer::parse_domain(2).unwrap(), SocketDomain::Inet);
    assert_eq!(NetworkCompatibilityLayer::parse_domain(10).unwrap(), SocketDomain::Inet6);
    assert_eq!(NetworkCompatibilityLayer::parse_domain(1).unwrap(), SocketDomain::Unix);
}

#[test]
fn test_network_socket_type_parsing() {
    assert_eq!(NetworkCompatibilityLayer::parse_socket_type(1).unwrap(), SocketType::Stream);
    assert_eq!(NetworkCompatibilityLayer::parse_socket_type(2).unwrap(), SocketType::Datagram);
    assert_eq!(NetworkCompatibilityLayer::parse_socket_type(3).unwrap(), SocketType::Raw);
}

#[test]
fn test_network_socket_protocol_parsing() {
    assert_eq!(NetworkCompatibilityLayer::parse_protocol(6).unwrap(), SocketProtocol::Tcp);
    assert_eq!(NetworkCompatibilityLayer::parse_protocol(17).unwrap(), SocketProtocol::Udp);
    assert_eq!(NetworkCompatibilityLayer::parse_protocol(0).unwrap(), SocketProtocol::Ip);
}

#[test]
fn test_network_socket_option_parsing() {
    assert_eq!(NetworkCompatibilityLayer::parse_option_level(1).unwrap(), SocketOptionLevel::Socket);
    assert_eq!(NetworkCompatibilityLayer::parse_option_level(6).unwrap(), SocketOptionLevel::Tcp);
    assert_eq!(NetworkCompatibilityLayer::parse_option(2).unwrap(), SocketOption::ReuseAddr);
    assert_eq!(NetworkCompatibilityLayer::parse_option(9).unwrap(), SocketOption::KeepAlive);
}

#[test]
fn invalid_socket_arguments_are_reported() {
    match NetworkCompatibilityLayer::parse_domain(3) {
        Err(VmError::InvalidArgument { argument, value, reason }) => {
            assert_eq!(argument, "domain");
            assert_eq!(value, "3");
            assert_eq!(reason, "Invalid socket domain");
        }
        other => panic!("unexpected {:?}", other),
    }
    match NetworkCompatibilityLayer::parse_socket_type(7) {
        Err(VmError::InvalidArgument { argument, value, .. }) => {
            assert_eq!(argument, "socket_type");
            assert_eq!(value, "7");
        }
        other => panic!("unexpected {:?}", other),
    }
    match NetworkCompatibilityLayer::parse_option_level(42) {
        Err(VmError::InvalidArgument { argument, value, reason }) => {
            assert_eq!(argument, "level");
            assert_eq!(value, "42");
            assert_eq!(reason, "Invalid socket option level");
        }
        other => panic!("unexpected {:?}", other),
    }
    match NetworkCompatibilityLayer::parse_option(100) {
        Err(VmError::InvalidArgument { argument, value, reason }) => {
            assert_eq!(argument, "opt");
            assert_eq!(value, "100");
            assert_eq!(reason, "Invalid socket option");
        }
        other => panic!("unexpected {:?}", other),
    }
}

#[test]
fn shared_option_numbers_resolve_to_socket_level() {
    assert_eq!(NetworkCompatibilityLayer::parse_option(4).unwrap(), SocketOption::Error);
    assert_eq!(NetworkCompatibilityLayer::parse_option(6).unwrap(), SocketOption::Broadcast);
    assert_eq!(NetworkCompatibilityLayer::parse_option(5).unwrap(), SocketOption::TcpKeepIntvl);
    assert_eq!(NetworkCompatibilityLayer::parse_protocol(1234).unwrap(), SocketProtocol::Ip);
    assert_eq!(SocketOption::TcpKeepIdle.number(), 4);
    assert_eq!(SocketDomain::Netlink.number(), 16);
}
