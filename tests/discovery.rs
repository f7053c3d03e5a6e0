use crazyflie_proto::commands::{field_packet, Field};
use crazyflie_proto::console::Console;
use crazyflie_proto::error::{Error, MemoryFault};
use crazyflie_proto::memory_views::DeckMemory;
use crazyflie_proto::positioning::{
    anchor_address, calibration_address, geometry_address, parse_id_list, LighthouseBsCalibration,
    LighthouseBsGeometry, LocoAnchorData,
};
use crazyflie_proto::toc::TocFetch;
use crazyflie_proto::toc_cache::toc_cache_key;
use crazyflie_proto::trajectory::{pack_compressed_segment, pack_compressed_start, pack_poly4d};

fn item_reply(id: u16, type_byte: u8, group: &str, name: &str) -> Vec<u8> {
    let mut r = vec![2, (id & 0xFF) as u8, (id >> 8) as u8, type_byte];
    r.extend_from_slice(group.as_bytes());
    r.push(0);
    r.extend_from_slice(name.as_bytes());
    r.push(0);
    r
}

#[test]
fn toc_discovery_in_index_order() {
    let (mut fetch, info) = TocFetch::new(5);
    assert_eq!((info.port, info.channel, info.data.clone()), (5, 0, vec![3]));
    let first = fetch.on_info(&[3, 2, 0, 0x44, 0x33, 0x22, 0x11]).unwrap().unwrap();
    assert_eq!(first.data, vec![2, 0, 0]);
    assert_eq!(fetch.crc32(), Some(0x11223344));
    let second = fetch.on_item(&item_reply(0, 7, "stab", "roll")).unwrap().unwrap();
    assert_eq!(second.data, vec![2, 1, 0]);
    assert!(!fetch.is_complete());
    assert_eq!(fetch.on_item(&[2, 1, 0, 7]), Err(Error::ProtocolError));
    assert_eq!(fetch.on_item(&item_reply(1, 7, "stab", "pitch")), Ok(None));
    assert!(fetch.is_complete());
    assert_eq!(fetch.on_item(&item_reply(2, 7, "stab", "yaw")), Err(Error::ProtocolError));
    let toc = fetch.into_toc();
    assert_eq!(toc.names(), vec![b"stab.roll".to_vec(), b"stab.pitch".to_vec()]);
    assert_eq!(toc_cache_key(1, 0x11223344), vec![1, 0x44, 0x33, 0x22, 0x11]);
}

#[test]
fn toc_discovery_empty_and_repeated_info() {
    let (mut fetch, _) = TocFetch::new(2);
    assert_eq!(fetch.on_item(&item_reply(0, 8, "a", "b")), Err(Error::ProtocolError));
    assert_eq!(fetch.on_info(&[3, 0, 0]), Err(Error::ProtocolError));
    assert_eq!(fetch.on_info(&[3, 0, 0, 1, 2, 3, 4]), Ok(None));
    assert!(fetch.is_complete());
    assert_eq!(fetch.on_info(&[3, 0, 0, 1, 2, 3, 4]), Err(Error::ProtocolError));
}

#[test]
fn console_lines_from_chunks() {
    let mut console = Console::new();
    assert!(console.push_chunk(b"SYS: boo").is_empty());
    let lines = console.push_chunk(b"t\nEEPROM: ok\npart");
    assert_eq!(lines, vec![b"SYS: boot".to_vec(), b"EEPROM: ok".to_vec()]);
    assert_eq!(console.line_count(), 2);
    assert_eq!(console.line(1), b"EEPROM: ok");
    assert_eq!(console.push_chunk(b"\n"), vec![b"part".to_vec()]);
    assert_eq!(console.history(), b"SYS: boot\nEEPROM: ok\npart\n");
}

#[test]
fn lighthouse_records() {
    let mut data = Vec::new();
    for i in 0..12u32 {
        data.extend_from_slice(&(i as f32).to_bits().to_le_bytes());
    }
    data.push(1);
    let g = LighthouseBsGeometry::from_bytes(&data).unwrap();
    assert_eq!(g.words.len(), 12);
    assert_eq!(f32::from_bits(g.words[3]), 3.0);
    assert!(g.valid);
    assert_eq!(g.to_bytes(), data);
    assert!(matches!(LighthouseBsGeometry::from_bytes(&data[0..48]), Err(Error::MemoryError(MemoryFault::Malformed))));
    let mut cal = Vec::new();
    for i in 0..14u32 {
        cal.extend_from_slice(&i.to_le_bytes());
    }
    cal.extend_from_slice(&0xCAFEu32.to_le_bytes());
    cal.push(0);
    let c = LighthouseBsCalibration::from_bytes(&cal).unwrap();
    assert_eq!(c.uid, 0xCAFE);
    assert!(!c.valid);
    assert_eq!(c.sweeps[13], 13);
    assert_eq!(c.to_bytes(), cal);
    assert_eq!(geometry_address(3), Ok(0x300));
    assert_eq!(calibration_address(15), Ok(0x1F00));
    assert_eq!(geometry_address(16), Err(Error::InvalidArgument));
}

#[test]
fn loco_anchor_records() {
    let mut d = Vec::new();
    d.extend_from_slice(&1.5f32.to_le_bytes());
    d.extend_from_slice(&(-2.0f32).to_le_bytes());
    d.extend_from_slice(&0.25f32.to_le_bytes());
    d.push(1);
    let a = LocoAnchorData::from_bytes(&d).unwrap();
    assert_eq!(f32::from_bits(a.position[1]), -2.0);
    assert!(a.is_valid);
    assert!(LocoAnchorData::from_bytes(&d[0..12]).is_err());
    assert_eq!(parse_id_list(&[3, 1, 4, 9, 0, 0]), Ok(vec![1, 4, 9]));
    assert_eq!(parse_id_list(&[17]), Err(Error::MemoryError(MemoryFault::Malformed)));
    assert_eq!(parse_id_list(&[3, 1]), Err(Error::MemoryError(MemoryFault::Malformed)));
    assert_eq!(anchor_address(2), Ok(0x2200));
    assert_eq!(anchor_address(16), Err(Error::MemoryError(MemoryFault::UnknownId)));
}

#[test]
fn deck_memory_table() {
    let mut table = vec![0u8; 1 + 8 * 0x20];
    table[0] = 3;
    let second = 1 + 0x20;
    table[second] = 0x01 | 0x04;
    table[second + 14..second + 18].copy_from_slice(b"bcDS");
    let m = DeckMemory::from_table(&table).unwrap();
    assert_eq!(m.sections.len(), 1);
    assert_eq!(m.sections[0].info_address, 0x21);
    assert_eq!(m.sections[0].command_address, 0x1010);
    assert_eq!(m.section(b"bcDS"), Some(0));
    assert_eq!(m.section(b"none"), None);
    table[0] = 2;
    assert!(matches!(DeckMemory::from_table(&table), Err(Error::MemoryError(MemoryFault::UnsupportedVersion))));
    assert!(matches!(DeckMemory::from_table(&[3, 0]), Err(Error::MemoryError(MemoryFault::Malformed))));
}

#[test]
fn field_packets() {
    let p = field_packet(7, 0, &[Field::Byte(10), Field::Word(0x3F800000), Field::Half(0x1234)]).unwrap();
    assert_eq!((p.port, p.channel), (7, 0));
    assert_eq!(p.data, vec![10, 0x00, 0x00, 0x80, 0x3F, 0x34, 0x12]);
    let long = vec![Field::Word(0); 8];
    assert_eq!(field_packet(7, 0, &long).unwrap_err(), Error::InvalidArgument);
    assert_eq!(field_packet(16, 0, &[]).unwrap_err(), Error::InvalidArgument);
}

#[test]
fn trajectory_layouts() {
    let seg = pack_compressed_segment(1500, &[100], &[], &[1, 2, 3], &[-1, 0, 0, 0, 0, 0, 7]).unwrap();
    assert_eq!(seg[0], 1 + 4 * 0 + 16 * 2 + 64 * 3);
    assert_eq!(&seg[1..3], &1500u16.to_le_bytes());
    assert_eq!(&seg[3..5], &100i16.to_le_bytes());
    assert_eq!(&seg[5..11], &[1, 0, 2, 0, 3, 0]);
    assert_eq!(&seg[11..13], &[0xFF, 0xFF]);
    assert_eq!(seg.len(), 3 + 2 * (1 + 3 + 7));
    assert_eq!(pack_compressed_segment(1, &[1, 2], &[], &[], &[]), Err(Error::InvalidArgument));
    assert_eq!(pack_compressed_start(1, -2, 3, 4), vec![1, 0, 0xFE, 0xFF, 3, 0, 4, 0]);
    let words: Vec<u32> = (0..33).collect();
    let bytes = pack_poly4d(&words).unwrap();
    assert_eq!(bytes.len(), 132);
    assert_eq!(&bytes[128..132], &32u32.to_le_bytes());
    assert_eq!(pack_poly4d(&words[0..32]), Err(Error::InvalidArgument));
}
