use nos3_io::BusKind;
use nos3_io::link::I2cLink;
use nos3_io::link::LinkConfig;
use nos3_io::link::UartLink;
use nos3_io::registry::Registry;
use nos3_io::registry::RegistryError;

fn uart_link(name: &str, port: &str, bus: &str) -> LinkConfig {
    LinkConfig::Uart(UartLink {
        name: name.as_bytes().to_vec(),
        real_port_path: port.to_string(),
        simulated_bus_name: bus.to_string(),
    })
}

fn i2c_link(name: &str, path: &str, addr: u16, bus: &str, sim_addr: u16) -> LinkConfig {
    LinkConfig::I2c(I2cLink {
        name: name.as_bytes().to_vec(),
        real_device_path: path.to_string(),
        real_slave_address: addr,
        simulated_bus_name: bus.to_string(),
        simulated_slave_address: sim_addr,
    })
}

#[test]
fn register_and_resolve_returns_the_config() {
    let mut reg = Registry::new();
    reg.register(uart_link("radio", "/dev/ttyUSB0", "usart_1")).unwrap();
    let got = reg.resolve(BusKind::Uart, "radio".as_bytes()).unwrap();
    assert_eq!(got, uart_link("radio", "/dev/ttyUSB0", "usart_1"));
}

#[test]
fn register_duplicate_name_same_kind_fails() {
    let mut reg = Registry::new();
    reg.register(uart_link("radio", "/dev/ttyUSB0", "usart_1")).unwrap();
    let r = reg.register(uart_link("radio", "/dev/ttyUSB1", "usart_2"));
    assert_eq!(r, Err(RegistryError::DuplicateName));
    // The first definition is untouched.
    let got = reg.resolve(BusKind::Uart, "radio".as_bytes()).unwrap();
    assert_eq!(got, uart_link("radio", "/dev/ttyUSB0", "usart_1"));
}

#[test]
fn same_name_is_allowed_across_kinds() {
    let mut reg = Registry::new();
    reg.register(uart_link("gps", "/dev/ttyUSB0", "usart_1")).unwrap();
    reg.register(i2c_link("gps", "/dev/i2c-1", 0x2b, "i2c_0", 0x2b)).unwrap();
    assert!(reg.resolve(BusKind::Uart, "gps".as_bytes()).is_ok());
    assert!(reg.resolve(BusKind::I2c, "gps".as_bytes()).is_ok());
}

#[test]
fn resolve_unknown_name_fails() {
    let mut reg = Registry::new();
    reg.register(uart_link("radio", "/dev/ttyUSB0", "usart_1")).unwrap();
    let r = reg.resolve(BusKind::Uart, "gps".as_bytes());
    assert_eq!(r, Err(RegistryError::UnknownLink));
}

#[test]
fn resolve_wrong_kind_fails() {
    let mut reg = Registry::new();
    reg.register(uart_link("radio", "/dev/ttyUSB0", "usart_1")).unwrap();
    let r = reg.resolve(BusKind::I2c, "radio".as_bytes());
    assert_eq!(r, Err(RegistryError::UnknownLink));
}

#[test]
fn resolve_twice_returns_unknown_the_second_time() {
    let mut reg = Registry::new();
    reg.register(uart_link("radio", "/dev/ttyUSB0", "usart_1")).unwrap();
    assert!(reg.resolve(BusKind::Uart, "radio".as_bytes()).is_ok());
    let again = reg.resolve(BusKind::Uart, "radio".as_bytes());
    assert_eq!(again, Err(RegistryError::UnknownLink));
}

#[test]
fn resolve_leaves_other_names_untouched() {
    let mut reg = Registry::new();
    reg.register(uart_link("radio", "/dev/ttyUSB0", "usart_1")).unwrap();
    reg.register(uart_link("gps", "/dev/ttyUSB1", "usart_2")).unwrap();
    assert!(reg.resolve(BusKind::Uart, "radio".as_bytes()).is_ok());
    let other = reg.resolve(BusKind::Uart, "gps".as_bytes()).unwrap();
    assert_eq!(other, uart_link("gps", "/dev/ttyUSB1", "usart_2"));
}

#[test]
fn resolve_all_returns_every_link_of_the_kind_in_order() {
    let mut reg = Registry::new();
    reg.register(uart_link("radio", "/dev/ttyUSB0", "usart_1")).unwrap();
    reg.register(i2c_link("eps", "/dev/i2c-1", 0x2b, "i2c_0", 0x2b)).unwrap();
    reg.register(uart_link("gps", "/dev/ttyUSB1", "usart_2")).unwrap();
    let drained = reg.resolve_all(BusKind::Uart);
    assert_eq!(
        drained,
        vec![
            uart_link("radio", "/dev/ttyUSB0", "usart_1"),
            uart_link("gps", "/dev/ttyUSB1", "usart_2"),
        ]
    );
    // The other kind is untouched.
    assert!(reg.resolve(BusKind::I2c, "eps".as_bytes()).is_ok());
}

#[test]
fn resolve_all_twice_returns_empty_the_second_time() {
    let mut reg = Registry::new();
    reg.register(uart_link("radio", "/dev/ttyUSB0", "usart_1")).unwrap();
    reg.register(uart_link("gps", "/dev/ttyUSB1", "usart_2")).unwrap();
    let first = reg.resolve_all(BusKind::Uart);
    assert_eq!(first.len(), 2);
    let second = reg.resolve_all(BusKind::Uart);
    assert!(second.is_empty());
}

#[test]
fn bytes_eq_compares_contents() {
    assert!(nos3_io::bytes_eq("radio".as_bytes(), "radio".as_bytes()));
    assert!(!nos3_io::bytes_eq("radio".as_bytes(), "radi".as_bytes()));
    assert!(!nos3_io::bytes_eq("radio".as_bytes(), "radiO".as_bytes()));
    assert!(nos3_io::bytes_eq("".as_bytes(), "".as_bytes()));
}
