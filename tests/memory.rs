use crazyflie_proto::error::{Error, MemoryFault};
use crazyflie_proto::memory::{
    get_memories, parse_info_count, response_memory_id, parse_info_details, MemoryDevice, MemoryRead, Memory,
    MemoryType, MemoryWrite,
};
use crazyflie_proto::memory_views::{
    checksum, read_u32, DeckMemorySection, EEPROMConfigMemory, ElementType, RadioSpeed,
};
use crazyflie_proto::onewire::{
    apply_element, check_ow_header, parse_elements, parse_ow_elements, parse_ow_header, OwElements, OwMemory,
};

fn read_reply(id: u8, addr: u32, status: u8, data: &[u8]) -> Vec<u8> {
    let mut r = vec![id];
    r.extend_from_slice(&addr.to_le_bytes());
    r.push(status);
    r.extend_from_slice(data);
    r
}

#[test]
fn memory_chunked_read() {
    let contents: Vec<u8> = (0..50u8).map(|i| i.wrapping_mul(7)).collect();
    let mut read = MemoryRead::new(2, 0x1000, 50);
    let mut lengths = Vec::new();
    while let Some(req) = read.next_request() {
        assert_eq!((req.port, req.channel), (4, 1));
        assert_eq!(req.data[0], 2);
        let addr = u32::from_le_bytes([req.data[1], req.data[2], req.data[3], req.data[4]]);
        let len = req.data[5] as usize;
        lengths.push(len);
        let start = (addr - 0x1000) as usize;
        let reply = read_reply(2, addr, 0, &contents[start..start + len]);
        read.on_response(&reply).unwrap();
        assert_eq!(read.progress().0 as usize, start + len);
    }
    assert_eq!(lengths, vec![24, 24, 2]);
    assert!(read.is_done());
    assert_eq!(read.progress(), (50, 50));
    assert_eq!(read.into_data(), contents);
}

#[test]
fn memory_read_error_status_aborts() {
    let mut read = MemoryRead::new(2, 0x1000, 50);
    let _ = read.next_request().unwrap();
    read.on_response(&read_reply(2, 0x1000, 0, &[0; 24])).unwrap();
    let _ = read.next_request().unwrap();
    assert_eq!(
        read.on_response(&read_reply(2, 0x1018, 1, &[])),
        Err(Error::MemoryError(MemoryFault::Status(1)))
    );
    assert_eq!(read.progress(), (24, 50));
    assert_eq!(
        read.on_response(&read_reply(2, 0x2000, 0, &[0; 24])),
        Err(Error::MemoryError(MemoryFault::Malformed))
    );
    assert_eq!(read.on_response(&[2, 0, 0]), Err(Error::MemoryError(MemoryFault::Malformed)));
}

#[test]
fn memory_chunked_write() {
    let data: Vec<u8> = (0..30u8).collect();
    let mut write = MemoryWrite::new(3, 0x20, data.clone());
    let first = write.next_request().unwrap();
    assert_eq!((first.port, first.channel), (4, 2));
    let mut expected = vec![3, 0x20, 0, 0, 0];
    expected.extend_from_slice(&data[0..24]);
    assert_eq!(first.data, expected);
    write.on_response(&[3, 0x20, 0, 0, 0, 0]).unwrap();
    let second = write.next_request().unwrap();
    assert_eq!(second.data, vec![3, 0x38, 0, 0, 0, 24, 25, 26, 27, 28, 29]);
    assert_eq!(write.on_response(&[3, 0x38, 0, 0, 0, 5]), Err(Error::MemoryError(MemoryFault::Status(5))));
    assert_eq!(write.progress(), (24, 30));
    write.on_response(&[3, 0x38, 0, 0, 0, 0]).unwrap();
    assert!(write.is_done());
    assert!(write.next_request().is_none());
}

#[test]
fn memory_discovery_replies() {
    assert_eq!(parse_info_count(&[1, 3]), Ok(3));
    assert_eq!(parse_info_count(&[2, 3]), Err(Error::ProtocolError));
    let d = parse_info_details(&[2, 1, 0x01, 0x40, 0x00, 0x00, 0x00]).unwrap();
    assert_eq!(d, MemoryDevice { memory_id: 1, memory_type: MemoryType::OneWire, size: 0x40 });
    assert_eq!(parse_info_details(&[2, 1, 0x01]), Err(Error::ProtocolError));
    assert_eq!(MemoryType::from_byte(0x14), MemoryType::Lighthouse);
    assert_eq!(MemoryType::from_byte(0x16), MemoryType::Unknown);
    assert_eq!(MemoryType::OneWire.name(), "1-Wire");
}

fn devices() -> Vec<MemoryDevice> {
    vec![
        MemoryDevice { memory_id: 0, memory_type: MemoryType::EEPROMConfig, size: 21 },
        MemoryDevice { memory_id: 1, memory_type: MemoryType::OneWire, size: 112 },
        MemoryDevice { memory_id: 2, memory_type: MemoryType::OneWire, size: 112 },
    ]
}

#[test]
fn memory_at_most_one_loan() {
    let mut slots = Memory::new(devices()).unwrap();
    let b = slots.open(1).unwrap();
    assert_eq!(b.memory_id(), 1);
    assert_eq!(b.memory_type(), MemoryType::OneWire);
    assert!(matches!(slots.open(1), Err(Error::MemoryError(MemoryFault::InUse))));
    assert!(slots.close_memory(b));
    let again = slots.open_memory(1, MemoryType::OneWire).unwrap();
    assert!(matches!(slots.open(7), Err(Error::MemoryError(MemoryFault::UnknownId))));
    assert!(matches!(slots.open_memory(0, MemoryType::OneWire), Err(Error::MemoryError(MemoryFault::WrongType))));
    assert!(slots.close_memory(again));
    let lent = slots.open_memory(2, MemoryType::OneWire).unwrap();
    assert!(slots.close_memory(lent));
    assert!(Memory::new(vec![MemoryDevice { memory_id: 4, memory_type: MemoryType::App, size: 1 }]).is_err());
}

#[test]
fn memory_filter() {
    let all = devices();
    assert_eq!(get_memories(&all, None), all);
    let ow = get_memories(&all, Some(MemoryType::OneWire));
    assert_eq!(ow.len(), 2);
    assert!(get_memories(&all, Some(MemoryType::Trajectory)).is_empty());
}

#[test]
fn eeprom_round_trip_and_checks() {
    let c = EEPROMConfigMemory::initial();
    let bytes = c.to_bytes();
    assert_eq!(bytes.len(), 21);
    assert_eq!(&bytes[0..4], b"0xBC");
    assert_eq!(bytes[5], 80);
    assert_eq!(bytes[6], 2);
    assert_eq!(bytes[20], checksum(&bytes[0..20]));
    let back = EEPROMConfigMemory::from_bytes(&bytes).unwrap();
    assert_eq!(back.radio_channel, 80);
    assert_eq!(back.radio_speed, RadioSpeed::R2Mbps);
    assert_eq!(back.radio_address, [0xE7; 5]);
    let mut bad = bytes.clone();
    bad[20] = bad[20].wrapping_add(1);
    assert!(matches!(EEPROMConfigMemory::from_bytes(&bad), Err(Error::MemoryError(MemoryFault::ChecksumMismatch))));
    let mut speed = bytes.clone();
    speed[6] = 7;
    assert!(matches!(EEPROMConfigMemory::from_bytes(&speed), Err(Error::MemoryError(MemoryFault::InvalidRadioSpeed(7)))));
    assert!(matches!(EEPROMConfigMemory::from_bytes(&bytes[0..20]), Err(Error::MemoryError(MemoryFault::Malformed))));
}

#[test]
fn eeprom_radio_channel_range() {
    let mut c = EEPROMConfigMemory::initial();
    assert_eq!(c.set_radio_channel(125), Ok(()));
    assert_eq!(c.radio_channel, 125);
    assert_eq!(c.set_radio_channel(126), Err(Error::InvalidArgument));
    assert_eq!(c.radio_channel, 125);
    assert_eq!(RadioSpeed::try_from_byte(1), Ok(RadioSpeed::R1Mbps));
    assert_eq!(RadioSpeed::R2Mbps.name(), "2 Mbps");
}

#[test]
fn checksum_wraps() {
    assert_eq!(checksum(&[200, 100]), 44);
    assert_eq!(checksum(&[]), 0);
}

#[test]
fn onewire_header_crc() {
    let mut header = vec![0xEB, 0x01, 0x02, 0x00, 0x00, 0x10, 0x20];
    let crc = crc32fast::hash(&header);
    header.push((crc & 0xFF) as u8);
    let h = parse_ow_header(&header).unwrap();
    assert_eq!(h.used_pins, 0x0201);
    assert_eq!((h.vid, h.pid), (0x10, 0x20));
    let mut bad = header.clone();
    bad[7] = bad[7].wrapping_add(1);
    assert_eq!(parse_ow_header(&bad), Err(Error::MemoryError(MemoryFault::CrcMismatch)));
    let mut magic = header.clone();
    magic[0] = 0xEA;
    assert_eq!(parse_ow_header(&magic), Err(Error::MemoryError(MemoryFault::Malformed)));
    assert_eq!(check_ow_header(&header, crc), Ok(h));
}

#[test]
fn onewire_crc_of_known_text() {
    let mut header = b"1234567".to_vec();
    header[0] = 0xEB;
    let crc = crc32fast::hash(&header);
    header.push((crc & 0xFF) as u8);
    assert!(parse_ow_header(&header).is_ok());
    assert_eq!(crc32fast::hash(b"123456789"), 0xCBF43926);
}

#[test]
fn onewire_elements() {
    let mut elements = vec![1, 4];
    elements.extend_from_slice(b"bcLH");
    elements.extend_from_slice(&[2, 1, b'C']);
    elements.extend_from_slice(&[3, 2, 0xAB, 0x01]);
    elements.extend_from_slice(&[9, 1, 0]);
    let e = parse_elements(&elements);
    assert_eq!(e.board_name, Some(b"bcLH".to_vec()));
    assert_eq!(e.revision, Some(b"C".to_vec()));
    assert_eq!(e.custom_data, Some(b"ab01".to_vec()));
    let invalid = parse_elements(&[1, 1, 0xFF, 5]);
    assert_eq!(invalid.board_name, None);
    let head = vec![0, elements.len() as u8];
    let mut all = head.clone();
    all.extend_from_slice(&elements);
    let crc = (crc32fast::hash(&all) & 0xFF) as u8;
    let parsed = parse_ow_elements(&head, &elements, crc).unwrap();
    assert_eq!(parsed.custom_data, Some(b"ab01".to_vec()));
    assert!(matches!(parse_ow_elements(&head, &elements, crc.wrapping_add(1)), Err(Error::MemoryError(MemoryFault::CrcMismatch))));
    assert!(matches!(parse_ow_elements(&[1, elements.len() as u8], &elements, crc), Err(Error::MemoryError(MemoryFault::UnsupportedVersion))));
}

#[test]
fn deck_section_table_entry() {
    let mut d = vec![0u8; 0x20];
    d[0] = 0x01 | 0x04 | 0x08 | 0x40;
    d[1] = 0x02;
    d[2..6].copy_from_slice(&0xDEADBEEFu32.to_le_bytes());
    d[10..14].copy_from_slice(&0x1000u32.to_le_bytes());
    d[14..19].copy_from_slice(b"bcAI\0");
    let s = DeckMemorySection::from_bytes(&d, 0x20, 0x100).unwrap();
    assert!(s.supports_read && s.supports_write && s.bootloader_active);
    assert!(!s.is_started && !s.supports_upgrade && !s.upgrade_required);
    assert!(!s.can_reset_to_firmware && s.can_reset_to_bootloader);
    assert_eq!(s.required_hash, Some(0xDEADBEEF));
    assert_eq!(s.required_length, None);
    assert_eq!(s.base_address, 0x1000);
    assert_eq!(s.name, b"bcAI".to_vec());
    assert_eq!(s.reset_to_bootloader().unwrap(), (0x104, vec![2]));
    assert!(s.reset_to_firmware().is_err());
    assert_eq!(s.read_address(0x10), Ok(0x1010));
    d[0] = 0x04;
    assert!(DeckMemorySection::from_bytes(&d, 0x20, 0x100).is_none());
    assert!(DeckMemorySection::from_bytes(&d[0..0x1F], 0x20, 0x100).is_none());
}

#[test]
fn small_field_readers() {
    assert_eq!(read_u32(&[0, 0x78, 0x56, 0x34, 0x12], 1), Ok(0x12345678));
    assert_eq!(read_u32(&[0, 1, 2], 0), Err(Error::MemoryError(MemoryFault::Malformed)));
    assert_eq!(read_u32(&[0, 1, 2, 3], 9), Err(Error::MemoryError(MemoryFault::Malformed)));
    assert_eq!(ElementType::from_len(3), Some(ElementType::Quadratic));
    assert_eq!(ElementType::from_len(2), None);
    assert_eq!(ElementType::Full.code(), 3);
}

#[test]
fn memory_list_by_kind() {
    let mem = Memory::new(devices()).unwrap();
    assert_eq!(mem.get_memories(None).len(), 3);
    assert_eq!(mem.get_memories(Some(MemoryType::EEPROMConfig)), vec![devices()[0]]);
}

#[test]
fn onewire_memory_from_parts() {
    let mut header = vec![0xEB, 0, 0, 0, 0, 0xBC, 0x0A];
    let crc = crc32fast::hash(&header);
    header.push((crc & 0xFF) as u8);
    let mut elements = vec![1, 4];
    elements.extend_from_slice(b"bcLH");
    let head = vec![0, elements.len() as u8];
    let mut all = head.clone();
    all.extend_from_slice(&elements);
    let ecrc = (crc32fast::hash(&all) & 0xFF) as u8;
    let m = OwMemory::from_parts(&header, &head, &elements, ecrc).unwrap();
    assert_eq!((m.header.vid, m.header.pid), (0xBC, 0x0A));
    assert_eq!(m.elements.board_name, Some(b"bcLH".to_vec()));
    assert!(OwMemory::from_parts(&header[0..7], &head, &elements, ecrc).is_err());
    assert_eq!(OwMemory::initial().header.used_pins, 0);
}

#[test]
fn memory_responses_by_id() {
    let pk = crazyflie_proto::packet::Packet::new(4, 1, vec![2, 0, 0x10, 0, 0, 0]).unwrap();
    assert_eq!(response_memory_id(&pk, 1), Some(2));
    assert_eq!(response_memory_id(&pk, 2), None);
    let empty = crazyflie_proto::packet::Packet::new(4, 1, vec![]).unwrap();
    assert_eq!(response_memory_id(&empty, 1), None);
}

#[test]
fn onewire_element_step() {
    let mut e = OwElements { board_name: None, revision: None, custom_data: None };
    apply_element(&mut e, 1, b"bcLH".to_vec(), false);
    assert_eq!(e.board_name, None);
    apply_element(&mut e, 1, b"bcLH".to_vec(), true);
    assert_eq!(e.board_name, Some(b"bcLH".to_vec()));
    apply_element(&mut e, 2, b"E".to_vec(), true);
    assert_eq!(e.revision, Some(b"E".to_vec()));
    apply_element(&mut e, 3, vec![0x0F, 0xA0], false);
    assert_eq!(e.custom_data, Some(b"0fa0".to_vec()));
    apply_element(&mut e, 7, vec![1], true);
    assert_eq!(e.board_name, Some(b"bcLH".to_vec()));
}

#[test]
fn deck_section_name_stops_at_byte_33() {
    let mut d = vec![b'x'; 40];
    d[0] = 0x01;
    d[1] = 0;
    let s = DeckMemorySection::from_bytes(&d, 0, 0).unwrap();
    assert_eq!(s.name.len(), 33 - 14);
}
