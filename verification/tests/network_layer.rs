use vm_cross_arch::error::VmError;
use vm_cross_arch::ir::GuestArch;
use vm_cross_arch::network_compat::{
    DefaultNetworkStackOperations, HostSocketAddr, NetworkCompatibilityLayer, NetworkStackOperations, SocketAddress,
    SocketDomain, SocketOption, SocketOptionLevel, SocketProtocol, SocketType,
};

struct FakeNet {
    next: i32,
}

impl NetworkStackOperations for FakeNet {
    fn socket(&mut self, _d: SocketDomain, _t: SocketType, _p: SocketProtocol) -> Result<i32, VmError> {
        self.next += 1;
        Ok(self.next)
    }
    fn bind(&mut self, _fd: i32, _addr: SocketAddress) -> Result<(), VmError> {
        Ok(())
    }
    fn listen(&mut self, _fd: i32, _backlog: i32) -> Result<(), VmError> {
        Ok(())
    }
    fn accept(&mut self, _fd: i32) -> Result<(i32, SocketAddress), VmError> {
        self.next += 1;
        Ok((self.next, SocketAddress::Inet(HostSocketAddr::V4 { ip: 0x0a000001, port: 4000 })))
    }
    fn connect(&mut self, _fd: i32, _addr: SocketAddress) -> Result<(), VmError> {
        Ok(())
    }
    fn send(&mut self, _fd: i32, buf: &[u8], _flags: i32) -> Result<usize, VmError> {
        Ok(buf.len())
    }
    fn recv(&mut self, _fd: i32, buf: &mut Vec<u8>, _flags: i32) -> Result<usize, VmError> {
        buf.push(7);
        Ok(1)
    }
    fn sendto(&mut self, _fd: i32, buf: &[u8], _flags: i32, _addr: SocketAddress) -> Result<usize, VmError> {
        Ok(buf.len())
    }
    fn recvfrom(&mut self, _fd: i32, _buf: &mut Vec<u8>, _flags: i32) -> Result<(usize, SocketAddress), VmError> {
        Ok((0, SocketAddress::Netlink(0)))
    }
    fn close(&mut self, _fd: i32) -> Result<(), VmError> {
        Ok(())
    }
    fn setsockopt(&mut self, _fd: i32, _l: SocketOptionLevel, _o: SocketOption, _v: &[u8]) -> Result<(), VmError> {
        Ok(())
    }
    fn getsockopt(&mut self, _fd: i32, _l: SocketOptionLevel, _o: SocketOption) -> Result<Vec<u8>, VmError> {
        Ok(vec![1])
    }
}

fn is_not_implemented(r: &Result<(), VmError>, what: &str) -> bool {
    matches!(r, Err(VmError::NotImplemented { feature, module }) if feature == what && module == "NetworkCompatibilityLayer")
}

#[test]
fn test_socket_address_conversion() {
    let addr = SocketAddress::Inet(HostSocketAddr::V4 { ip: 0x7f000001, port: 8080 });
    assert_eq!(addr.to_host_addr(), Some(HostSocketAddr::V4 { ip: 0x7f000001, port: 8080 }));

    let addr6 = SocketAddress::Inet6(HostSocketAddr::V6 { ip: 1, port: 8080 });
    assert_eq!(addr6.to_host_addr(), Some(HostSocketAddr::V6 { ip: 1, port: 8080 }));

    assert_eq!(SocketAddress::Unix("/tmp/s".to_string()).to_host_addr(), None);
}

#[test]
fn default_stack_supports_nothing_but_close() {
    let mut net = NetworkCompatibilityLayer::new(GuestArch::X86_64, Box::new(DefaultNetworkStackOperations));
    match net.socket(2, 1, 6) {
        Err(VmError::NotImplemented { feature, .. }) => assert_eq!(feature, "DefaultNetworkStackOperations::socket"),
        other => panic!("unexpected {:?}", other),
    }
    assert!(net.close(5).is_ok());
    assert!(matches!(net.socket(99, 1, 0), Err(VmError::InvalidArgument { .. })));
}

#[test]
fn socket_table_follows_the_stack() {
    let mut net = NetworkCompatibilityLayer::new(GuestArch::Arm64, Box::new(FakeNet { next: 2 }));
    let fd = net.socket(2, 1, 6).unwrap();
    assert_eq!(fd, 3);
    let info = net.socket_info(3).unwrap();
    assert_eq!((info.domain, info.socket_type, info.protocol), (SocketDomain::Inet, SocketType::Stream, SocketProtocol::Tcp));
    assert!(info.options.is_empty());

    assert!(net.setsockopt(3, 1, 2, &[1, 0, 0, 0]).is_ok());
    let info = net.socket_info(3).unwrap();
    assert_eq!(info.options, vec![((SocketOptionLevel::Socket, SocketOption::ReuseAddr), vec![1, 0, 0, 0])]);
    assert!(matches!(net.setsockopt(3, 99, 2, &[]), Err(VmError::InvalidArgument { .. })));
    assert_eq!(net.getsockopt(3, 6, 1).unwrap(), vec![1]);

    let child = net.accept(3, 0, &mut 0).unwrap();
    assert_eq!(child, 4);
    let c = net.socket_info(4).unwrap();
    assert_eq!(c.options.len(), 1);
    assert_eq!(c.remote_addr.unwrap().to_host_addr(), Some(HostSocketAddr::V4 { ip: 0x0a000001, port: 4000 }));

    assert!(is_not_implemented(&net.bind(3, 0x1000, 16), "SocketAddress::from_guest_memory"));
    assert!(is_not_implemented(&net.connect(3, 0x1000, 16), "SocketAddress::from_guest_memory"));

    let mut buf = Vec::new();
    assert_eq!(net.recv(3, &mut buf, 0).unwrap(), 1);
    assert_eq!(net.send(3, &[1, 2, 3], 0).unwrap(), 3);

    assert!(net.close(3).is_ok());
    assert!(net.socket_info(3).is_none());
    assert!(net.socket_info(4).is_some());
}

#[test]
fn host_socket_answers_are_recorded_as_given() {
    let mut net = NetworkCompatibilityLayer::new(GuestArch::X86_64, Box::new(DefaultNetworkStackOperations));
    let refused = VmError::NotImplemented { feature: "x".to_string(), module: "y".to_string() };

    assert!(net.record_socket(SocketDomain::Inet, SocketType::Datagram, SocketProtocol::Udp, Err(refused.clone())).is_err());
    assert!(net.socket_info(5).is_none());
    assert_eq!(net.record_socket(SocketDomain::Inet, SocketType::Datagram, SocketProtocol::Udp, Ok(5)).unwrap(), 5);
    let info = net.socket_info(5).unwrap();
    assert_eq!((info.domain, info.socket_type, info.protocol), (SocketDomain::Inet, SocketType::Datagram, SocketProtocol::Udp));

    assert!(net.record_setsockopt(5, SocketOptionLevel::Socket, SocketOption::ReuseAddr, &[7], Err(refused.clone())).is_err());
    assert!(net.socket_info(5).unwrap().options.is_empty());
    assert!(net.record_setsockopt(5, SocketOptionLevel::Socket, SocketOption::ReuseAddr, &[7], Ok(())).is_ok());
    assert_eq!(net.socket_info(5).unwrap().options, vec![((SocketOptionLevel::Socket, SocketOption::ReuseAddr), vec![7])]);

    let peer = SocketAddress::Inet(HostSocketAddr::V4 { ip: 0x7f000001, port: 80 });
    assert_eq!(net.record_accept(5, Ok((6, peer))).unwrap(), 6);
    assert_eq!(net.socket_info(6).unwrap().options.len(), 1);
    assert!(net.record_accept(5, Err(refused.clone())).is_err());
    // a listening socket that is not in the table gives no entry
    let peer = SocketAddress::Inet(HostSocketAddr::V4 { ip: 0x7f000001, port: 81 });
    assert_eq!(net.record_accept(42, Ok((8, peer))).unwrap(), 8);
    assert!(net.socket_info(8).is_none());

    assert!(net.record_close(6, Err(refused)).is_err());
    assert!(net.socket_info(6).is_some());
    assert!(net.record_close(6, Ok(())).is_ok());
    assert!(net.socket_info(6).is_none());
}
