use zkattend::info::DeviceInfo;
use zkattend::scanner::{follow_up_ports, host_address, sorted_open_ports, subnets_to_scan, zkteco_ports, BiometricDevice};

#[test]
fn local_subnet_first_and_not_repeated() {
    assert_eq!(
        subnets_to_scan((192, 168, 0)),
        vec![(192, 168, 0), (192, 168, 1), (192, 168, 2), (10, 0, 0), (10, 0, 1), (172, 16, 0)]
    );
    assert_eq!(subnets_to_scan((10, 1, 2)).len(), 7);
    assert_eq!(subnets_to_scan((10, 1, 2))[0], (10, 1, 2));
}

#[test]
fn host_addresses_are_dotted() {
    assert_eq!(host_address((192, 168, 1), 1), "192.168.1.1");
    assert_eq!(host_address((10, 0, 0), 254), "10.0.0.254");
}

#[test]
fn protocol_ports_in_probe_order() {
    assert_eq!(zkteco_ports(), vec![4370, 4360, 5005, 5010, 89]);
}

#[test]
fn follow_up_skips_main_port() {
    assert_eq!(follow_up_ports(4360), vec![4370, 5005, 5010, 89, 80, 8080, 443, 8443]);
    assert_eq!(follow_up_ports(4370), vec![4360, 5005, 5010, 89, 80, 8080, 443, 8443]);
}

#[test]
fn open_ports_sorted() {
    assert_eq!(sorted_open_ports(&vec![5005, 4370, 8443, 80]), vec![80, 4370, 5005, 8443]);
    assert_eq!(sorted_open_ports(&vec![]), Vec::<u16>::new());
}

#[test]
fn found_device_summary() {
    let mut info = DeviceInfo::empty();
    info.device_name = "K40".to_string();
    info.serial_number = "ABC123".to_string();
    let d = BiometricDevice::found("192.168.1.20".to_string(), &vec![4370, 80], Some(&info));
    assert_eq!(d.ip, "192.168.1.20");
    assert_eq!(d.mac, "Unknown");
    assert_eq!(d.open_ports, vec![80, 4370]);
    assert_eq!(d.device_name, Some("K40".to_string()));
    assert_eq!(d.firmware_version, None);
    assert_eq!(d.serial_number, Some("ABC123".to_string()));
    let bare = BiometricDevice::found("10.0.0.5".to_string(), &vec![4370], None);
    assert_eq!(bare.device_name, None);
    assert_eq!(bare.serial_number, None);
}
