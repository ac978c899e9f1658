use scanframe::command::{command_payload, script, Command, Source};
use scanframe::frame::parse;
use scanframe::hex::hex_dump;
use scanframe::packet::{compose_packet, Packet};

#[test]
fn opcodes_match_the_catalog() {
    assert_eq!(Command::AimOn.opcode(), 0xc5);
    assert_eq!(Command::AimOff.opcode(), 0xc4);
    assert_eq!(Command::IlluminationOn.opcode(), 0xc1);
    assert_eq!(Command::IlluminationOff.opcode(), 0xc0);
    assert_eq!(Command::CapabilitiesRequest.opcode(), 0xd3);
}

#[test]
fn source_tags() {
    assert_eq!(Source::Device.byte(), 0x00);
    assert_eq!(Source::Host.byte(), 0x04);
}

#[test]
fn catalog_payloads_are_opcode_host_reserved() {
    assert_eq!(command_payload(Command::AimOn), vec![0xc5, 0x04, 0x00]);
    assert_eq!(command_payload(Command::AimOff), vec![0xc4, 0x04, 0x00]);
    assert_eq!(command_payload(Command::IlluminationOn), vec![0xc1, 0x04, 0x00]);
    assert_eq!(command_payload(Command::IlluminationOff), vec![0xc0, 0x04, 0x00]);
    assert_eq!(command_payload(Command::CapabilitiesRequest), vec![0xd3, 0x04, 0x00]);
}

#[test]
fn compose_packet_aim_on_yields_exact_wire_bytes() {
    let wire = compose_packet(Command::AimOn, &[]);
    assert_eq!(wire, vec![0x04, 0xc5, 0x04, 0x00, 0xff, 0x33]);
}

#[test]
fn compose_packet_with_arguments() {
    let wire = compose_packet(Command::CapabilitiesRequest, &[0x10, 0x20]);
    // Length byte 0x06 covers itself, the three catalog bytes and the two
    // arguments.
    assert_eq!(wire[0], 0x06);
    assert_eq!(&wire[1..6], &[0xd3, 0x04, 0x00, 0x10, 0x20]);
    let frame = parse(&wire).unwrap();
    assert_eq!(frame.payload, vec![0xd3, 0x04, 0x00, 0x10, 0x20]);
}

#[test]
fn packet_new_derives_length_and_checksum() {
    let p = Packet::new(Command::AimOn, Source::Host, 0, vec![]);
    assert_eq!(p.length, 4);
    assert_eq!(p.checksum, 0xff33);
    assert_eq!(p.command, Command::AimOn);
    assert_eq!(p.source, Source::Host);
    assert_eq!(p.status, 0);
    assert!(p.payload.is_empty());
}

#[test]
fn packet_wire_bytes_match_compose_packet() {
    let p = Packet::new(Command::IlluminationOn, Source::Host, 0, vec![0x05]);
    assert_eq!(p.wire_bytes(), compose_packet(Command::IlluminationOn, &[0x05]));
}

#[test]
fn script_runs_aim_then_capabilities() {
    let s = script();
    assert_eq!(
        s,
        vec![(Command::AimOn, 1), (Command::AimOff, 0), (Command::CapabilitiesRequest, 0)]
    );
}

#[test]
fn hex_dump_of_empty_input_is_empty() {
    assert_eq!(hex_dump(&[]), "");
}

#[test]
fn hex_dump_is_lowercase_and_space_separated() {
    assert_eq!(hex_dump(&[0x04]), "04");
    assert_eq!(hex_dump(&[0x04, 0xc5, 0x04, 0x00, 0xff, 0x33]), "04 c5 04 00 ff 33");
    assert_eq!(hex_dump(&[0x0a, 0xb0, 0x9f]), "0a b0 9f");
}
