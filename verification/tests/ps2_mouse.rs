use ghostos::input::MouseButton;
use ghostos::io::PortOp;
use ghostos::mouse::{
    check_response, send_command, Command, CommandError, Mouse, Packet, PacketParseError, State,
};
use ghostos::ps2::{
    self, data_ready, enable_second_port, ready_for_input, read_configuration_byte,
    write_configuration_byte, ConfigurationByte,
};

#[test]
fn controller_status_bits() {
    assert!(ready_for_input(0x00));
    assert!(!ready_for_input(0x02));
    assert!(data_ready(0x01));
    assert!(!data_ready(0xFE));
}

#[test]
fn second_port_enable_sets_interrupt_and_clears_clock_disable() {
    let config = ConfigurationByte::from_raw(0x20).with_second_port_enabled();
    assert_eq!(config.raw(), 0x02);
    assert_eq!(ConfigurationByte::from_raw(0xFF).with_second_port_enabled().raw(), 0xDF);
}

#[test]
fn configuration_byte_accesses() {
    assert_eq!(read_configuration_byte(), PortOp::WriteU8 { port: 0x64, value: 0x20 });
    assert_eq!(
        write_configuration_byte(ConfigurationByte::from_raw(0x47)),
        vec![PortOp::WriteU8 { port: 0x64, value: 0x60 }, PortOp::WriteU8 { port: 0x60, value: 0x47 }]
    );
    assert_eq!(
        enable_second_port(ConfigurationByte::from_raw(0x65)),
        vec![PortOp::WriteU8 { port: 0x64, value: 0x60 }, PortOp::WriteU8 { port: 0x60, value: 0x47 }]
    );
    assert_eq!(ps2::enable_second_port_command(), PortOp::WriteU8 { port: 0x64, value: 0xA8 });
}

#[test]
fn mouse_commands_go_through_the_second_port() {
    assert_eq!(
        send_command(Command::EnableDataReporting),
        vec![PortOp::WriteU8 { port: 0x64, value: 0xD4 }, PortOp::WriteU8 { port: 0x60, value: 0xF4 }]
    );
    assert_eq!(Command::Reset.value(), 0xFF);
    assert_eq!(check_response(0xFA), Ok(()));
    assert_eq!(check_response(0xFE), Err(CommandError::Resend));
    assert_eq!(check_response(0x00), Err(CommandError::UnexpectedResponse(0x00)));
}

#[test]
fn packet_decoding() {
    assert_eq!(
        Packet::from_bytes([0x07, 0, 0]),
        Err(PacketParseError::InvalidFirstByte(0x07))
    );
    let p = Packet::from_bytes([0x08 | 0x01 | 0x10 | 0x80, 0xFF, 0x05]).unwrap();
    assert!(p.left_button && !p.right_button && !p.middle_button);
    assert_eq!(p.x_movement, -1);
    assert_eq!(p.y_movement, 5);
    assert!(!p.x_overflow && p.y_overflow);
    let q = Packet::from_bytes([0x08 | 0x20 | 0x04, 0x10, 0x00]).unwrap();
    assert_eq!(q.x_movement, 16);
    assert_eq!(q.y_movement, -256);
    assert!(q.middle_button);
}

#[test]
fn older_driver_state_accumulates_and_saturates() {
    let mut state = State::new();
    state.apply_packet(Packet::from_bytes([0x08 | 0x02, 10, 20]).unwrap());
    assert_eq!((state.x, state.y), (10, 20));
    assert!(state.right_button && !state.left_button);
    state.x = i32::MAX - 1;
    state.apply_packet(Packet::from_bytes([0x08 | 0x40, 5, 0]).unwrap());
    assert_eq!(state.x, i32::MAX - 1);
    state.apply_packet(Packet::from_bytes([0x08, 5, 0]).unwrap());
    assert_eq!(state.x, i32::MAX);
}

#[test]
fn mouse_drops_bytes_until_a_packet_start() {
    let mut mouse = Mouse::new();
    mouse.handle_byte(0x00);
    mouse.handle_byte(0x08 | 0x01);
    mouse.handle_byte(3);
    assert_eq!(mouse.state().x(), 0);
    mouse.handle_byte(2);
    let state = mouse.state();
    assert_eq!((state.x(), state.y()), (3, 0));
    assert!(state.is_down(MouseButton::Left));
    mouse.handle_byte(0x08 | 0x20);
    mouse.handle_byte(0);
    mouse.handle_byte(0xFE);
    assert_eq!(mouse.state().y(), 2);
    assert!(!mouse.state().is_down(MouseButton::Left));
}

#[test]
fn mouse_position_clamps_to_u16() {
    let mut mouse = Mouse::new();
    for _ in 0..2 {
        mouse.handle_byte(0x08 | 0x10);
        mouse.handle_byte(0x00);
        mouse.handle_byte(0x00);
    }
    assert_eq!(mouse.state().x(), 0);
}
