use crazyflie_proto::commands::{
    localization_frame, LocalizationFrame, check_protocol_version, emergency_stop, emergency_stop_watchdog, is_echo, lh_persist_request,
    notify_setpoint_stop, parse_protocol_version, ping_request, short_lpp_packet,
};
use crazyflie_proto::connection::{dispatch_step, pump_step, Connection, DispatchAction, Inbound, Outbound, PumpAction};
use crazyflie_proto::error::{Error, LogFault, ParamFault};
use crazyflie_proto::log::{
    append_block_request, control_status, create_block_request, log_item_type, log_type_byte,
    start_block_request, check_log_toc, BlockIds, Log, LogBlock, LogPeriod,
};
use crazyflie_proto::packet::{channel_route, AppChannelPacket, Packet, PortRegistry};
use crazyflie_proto::param::{
    check_param_toc, classify_misc, DefaultValue, misc_request, parse_persistent_state, write_outcome, MiscFrame, ParamItemInfo,
    Param,
};
use crazyflie_proto::supervisor::{bitfield_of_reply, SupervisorInfo};
use crazyflie_proto::toc::{parse_toc_info, parse_toc_item, Toc, TocEntry};
use crazyflie_proto::toc_cache::{deserialize_toc, serialize_toc, toc_cache_key, toc_from_cache, MemoryTocCache};
use crazyflie_proto::value::{Value, ValueType};

fn entry(name: &str, id: u16, type_byte: u8) -> TocEntry {
    TocEntry { name: name.as_bytes().to_vec(), id, type_byte }
}

fn param_store() -> Param {
    let mut toc = Toc::new();
    toc.insert(entry("test.u16", 7, 0x09));
    toc.insert(entry("test.f32", 8, 0x06));
    toc.insert(entry("ro.u8", 9, 0x48));
    Param::new(toc).unwrap()
}

#[test]
fn codec_u16_le() {
    assert_eq!(Value::U16(0xBEEF).to_le_bytes(), vec![0xEF, 0xBE]);
    assert_eq!(Value::from_le_bytes(&[0xEF, 0xBE], ValueType::U16), Ok(Value::U16(0xBEEF)));
}

#[test]
fn codec_signed_values() {
    assert_eq!(Value::I8(-1).to_le_bytes(), vec![0xFF]);
    assert_eq!(Value::from_le_bytes(&[0x00, 0x80], ValueType::I16), Ok(Value::I16(-32768)));
    assert_eq!(Value::I32(-2).to_le_bytes(), vec![0xFE, 0xFF, 0xFF, 0xFF]);
    assert_eq!(
        Value::from_le_bytes(&[0xFF; 8], ValueType::I64),
        Ok(Value::I64(-1))
    );
    assert_eq!(Value::I64(i64::MIN).to_le_bytes(), vec![0, 0, 0, 0, 0, 0, 0, 0x80]);
}

#[test]
fn codec_round_trip_every_type() {
    let cases: Vec<(ValueType, Vec<u8>)> = vec![
        (ValueType::U8, vec![0x81]),
        (ValueType::U16, vec![0x01, 0xF0]),
        (ValueType::U32, vec![1, 2, 3, 0xF4]),
        (ValueType::U64, vec![1, 2, 3, 4, 5, 6, 7, 0xF8]),
        (ValueType::I8, vec![0x81]),
        (ValueType::I16, vec![0x01, 0xF0]),
        (ValueType::I32, vec![1, 2, 3, 0xF4]),
        (ValueType::I64, vec![1, 2, 3, 4, 5, 6, 7, 0xF8]),
        (ValueType::F16, vec![0x00, 0x3C]),
        (ValueType::F32, vec![0x00, 0x00, 0x80, 0x3F]),
        (ValueType::F64, vec![0, 0, 0, 0, 0, 0, 0xF0, 0x3F]),
    ];
    for (t, b) in cases {
        let v = Value::from_le_bytes(&b, t).unwrap();
        assert_eq!(v.value_type(), t);
        assert_eq!(v.to_le_bytes(), b);
    }
    assert_eq!(Value::from_le_bytes(&[0x00, 0x00, 0x80, 0x3F], ValueType::F32), Ok(Value::F32(1.0f32.to_bits())));
}

#[test]
fn codec_wrong_length() {
    assert_eq!(Value::from_le_bytes(&[1, 2, 3], ValueType::U16), Err(Error::ConversionError));
    assert_eq!(Value::from_le_bytes(&[], ValueType::U8), Err(Error::ConversionError));
}

#[test]
fn byte_lengths() {
    let lens = [
        (ValueType::U8, 1), (ValueType::U16, 2), (ValueType::U32, 4), (ValueType::U64, 8),
        (ValueType::I8, 1), (ValueType::I16, 2), (ValueType::I32, 4), (ValueType::I64, 8),
        (ValueType::F16, 2), (ValueType::F32, 4), (ValueType::F64, 8),
    ];
    for (t, n) in lens {
        assert_eq!(t.byte_length(), n);
    }
}

#[test]
fn packet_bounds() {
    assert!(Packet::new(15, 3, vec![0; 30]).is_ok());
    assert_eq!(Packet::new(16, 0, vec![]).unwrap_err(), Error::InvalidArgument);
    assert_eq!(Packet::new(0, 4, vec![]).unwrap_err(), Error::InvalidArgument);
    assert_eq!(Packet::new(0, 0, vec![0; 31]).unwrap_err(), Error::InvalidArgument);
    let p = Packet::new(2, 1, vec![7, 0, 1]).unwrap();
    assert!(p.matches(2, 1, &[7, 0]));
    assert!(!p.matches(2, 1, &[7, 1]));
    assert!(!p.matches(2, 2, &[7, 0]));
    assert!(!p.matches(2, 1, &[7, 0, 1, 5]));
}

#[test]
fn app_channel_mtu() {
    let ok = AppChannelPacket::try_from_vec(vec![1; 31]).unwrap();
    assert_eq!(ok.as_slice().len(), 31);
    assert_eq!(ok.into_vec(), vec![1; 31]);
    assert_eq!(AppChannelPacket::try_from_vec(vec![0; 32]).unwrap_err(), Error::AppchannelPacketTooLarge);
    let small = AppChannelPacket::try_from_vec(vec![1, 2, 3]).unwrap();
    let out = small.to_packet().unwrap();
    assert_eq!((out.port, out.channel, out.data.clone()), (13, 2, vec![1, 2, 3]));
    assert_eq!(AppChannelPacket::from_packet(&out).into_vec(), vec![1, 2, 3]);
    let full = AppChannelPacket::try_from_vec(vec![0; 31]).unwrap();
    assert_eq!(full.to_packet().unwrap_err(), Error::InvalidArgument);
}

#[test]
fn channel_and_port_routing() {
    assert_eq!(channel_route(3), Some(3));
    assert_eq!(channel_route(4), None);
    let mut ports = PortRegistry::new();
    assert!(ports.register(2));
    assert!(!ports.register(2));
    assert!(!ports.register(16));
    assert!(ports.routes(2));
    assert!(!ports.routes(5));
    assert_eq!(dispatch_step(false, &ports, Inbound::Packet(2)), DispatchAction::Forward(2));
    assert_eq!(dispatch_step(false, &ports, Inbound::Packet(5)), DispatchAction::Drop);
    assert_eq!(dispatch_step(false, &ports, Inbound::Timeout), DispatchAction::Continue);
    assert_eq!(dispatch_step(true, &ports, Inbound::Packet(2)), DispatchAction::Exit);
    assert_eq!(dispatch_step(false, &ports, Inbound::Closed), DispatchAction::Exit);
    assert_eq!(pump_step(false, Outbound::Packet), PumpAction::Send);
    assert_eq!(pump_step(true, Outbound::Packet), PumpAction::Exit);
    assert_eq!(pump_step(false, Outbound::Timeout), PumpAction::Continue);
}

#[test]
fn supervisor_decode_0x001b() {
    let s = SupervisorInfo::from_bits(0x001B);
    assert!(s.can_be_armed());
    assert!(s.is_armed());
    assert!(!s.is_auto_armed());
    assert!(s.can_fly());
    assert!(s.is_flying());
    assert!(!s.is_tumbled());
    assert!(!s.is_locked());
    assert!(!s.is_crashed());
    assert!(!s.hl_control_active());
    assert!(!s.hl_traj_finished());
    assert!(!s.hl_control_disabled());
    assert_eq!(s.active_states(), vec!["Can be armed", "Is armed", "Can fly", "Is flying"]);
}

#[test]
fn supervisor_high_bits_and_reply() {
    let s = SupervisorInfo::from_bits(0x0700);
    assert_eq!(s.active_states(), vec!["HL control active", "HL trajectory finished", "HL control disabled"]);
    let pk = Packet::new(14, 0, vec![0x8C, 0x1B, 0x00]).unwrap();
    assert_eq!(bitfield_of_reply(&pk), Some(0x001B));
    let short = Packet::new(14, 0, vec![0x0C, 0x1B]).unwrap();
    assert_eq!(bitfield_of_reply(&short), None);
}

#[test]
fn toc_info_and_item() {
    let info = parse_toc_info(&[3, 5, 0, 0x78, 0x56, 0x34, 0x12]).unwrap();
    assert_eq!(info.count, 5);
    assert_eq!(info.crc32, 0x12345678);
    assert_eq!(parse_toc_info(&[2, 5, 0, 0, 0, 0, 0]), Err(Error::ProtocolError));
    let mut reply = vec![2, 7, 0, 0x09];
    reply.extend_from_slice(b"test\0u16\0");
    let e = parse_toc_item(&reply).unwrap();
    assert_eq!(e.name, b"test.u16".to_vec());
    assert_eq!(e.id, 7);
    assert_eq!(e.type_byte, 0x09);
    let mut bad = vec![2, 7, 0, 0x09];
    bad.extend_from_slice(b"test");
    assert!(matches!(parse_toc_item(&bad), Err(Error::ProtocolError)));
    assert!(matches!(parse_toc_item(&[2, 0, 0, 8, b'a', 0, b'b']), Err(Error::ProtocolError)));
    assert!(parse_toc_item(&[2, 0, 0, 8, b'a', 0, b'b', 0]).is_ok());
}

#[test]
fn toc_insert_replaces_same_name() {
    let mut toc = Toc::new();
    toc.insert(entry("a.b", 1, 8));
    toc.insert(entry("a.c", 2, 8));
    toc.insert(entry("a.b", 3, 9));
    assert_eq!(toc.len(), 2);
    let i = toc.find(b"a.b").unwrap();
    assert_eq!(toc.entry(i).id, 3);
    assert_eq!(toc.find(b"x.y"), None);
    assert_eq!(toc.names(), vec![b"a.b".to_vec(), b"a.c".to_vec()]);
}

#[test]
fn param_type_bytes() {
    let ro = ParamItemInfo::from_type_byte(0x49).unwrap();
    assert_eq!(ro.item_type, ValueType::U16);
    assert!(!ro.writable);
    assert!(!ro.extended);
    let ext = ParamItemInfo::from_type_byte(0x16).unwrap();
    assert_eq!(ext.item_type, ValueType::F32);
    assert!(ext.writable);
    assert!(ext.extended);
    assert_eq!(ParamItemInfo::from_type_byte(0x04), Err(Error::ParamError(ParamFault::UnknownType(4))));
}

#[test]
fn param_set_echo() {
    let mut store = param_store();
    let req = store.set_request(b"test.u16", Value::U16(0xBEEF)).unwrap();
    assert_eq!((req.port, req.channel), (2, 2));
    assert_eq!(req.data, vec![7, 0, 0xEF, 0xBE]);
    assert_eq!(store.complete_set(b"test.u16", Value::U16(0xBEEF), &[7, 0, 0xEF, 0xBE]), Ok(()));
    assert_eq!(store.get(b"test.u16"), Ok(Some(Value::U16(0xBEEF))));
}

#[test]
fn param_set_error_code() {
    let mut store = param_store();
    assert_eq!(
        store.complete_set(b"test.u16", Value::U16(0xBEEF), &[7, 0, 0x03]),
        Err(Error::ParamError(ParamFault::WriteCode(3)))
    );
    assert_eq!(store.get(b"test.u16"), Ok(None));
    assert_eq!(write_outcome(Value::U16(1), &[7, 0]), Err(Error::ProtocolError));
}

#[test]
fn param_set_type_and_name_errors() {
    let mut store = param_store();
    assert_eq!(store.set_request(b"test.u16", Value::U8(1)).unwrap_err(), Error::ParamError(ParamFault::TypeMismatch));
    assert_eq!(store.set_request(b"no.such", Value::U8(1)).unwrap_err(), Error::ParamError(ParamFault::NotFound));
    assert_eq!(store.complete_set(b"test.u16", Value::U8(1), &[7, 0, 1]), Err(Error::ParamError(ParamFault::TypeMismatch)));
    assert_eq!(store.get_type(b"test.f32"), Ok(ValueType::F32));
    assert_eq!(store.is_writable(b"ro.u8"), Ok(false));
    assert_eq!(store.is_writable(b"test.u16"), Ok(true));
    assert_eq!(store.get(b"no.such"), Err(Error::ParamError(ParamFault::NotFound)));
}

#[test]
fn param_set_notifies_each_watcher_once() {
    let mut store = param_store();
    let a = store.watch();
    let b = store.watch();
    store.unwatch(b);
    store.complete_set(b"test.u16", Value::U16(5), &[7, 0, 5, 0]).unwrap();
    let notes = store.take_notifications(a);
    assert_eq!(notes, vec![(b"test.u16".to_vec(), Value::U16(5))]);
    assert!(store.take_notifications(a).is_empty());
    assert!(store.take_notifications(b).is_empty());
}

#[test]
fn param_read_reply() {
    let mut store = param_store();
    assert_eq!(store.complete_read(b"test.u16", &[7, 0, 0, 0x34, 0x12]), Ok(Value::U16(0x1234)));
    assert_eq!(store.get(b"test.u16"), Ok(Some(Value::U16(0x1234))));
    assert_eq!(store.complete_read(b"test.u16", &[7, 0, 0, 0x34]), Err(Error::ConversionError));
}

#[test]
fn misc_update_is_not_a_reply() {
    assert_eq!(classify_misc(&[1, 7, 0, 0x34, 0x12]), MiscFrame::Update(7));
    assert_eq!(classify_misc(&[4, 7, 0, 0]), MiscFrame::Response(4, 7));
    assert_eq!(classify_misc(&[9, 7, 0]), MiscFrame::Unknown);
    let mut store = param_store();
    let w = store.watch();
    let update = store.apply_update(&[1, 7, 0, 0x34, 0x12]).unwrap();
    assert_eq!(update, (b"test.u16".to_vec(), Value::U16(0x1234)));
    assert_eq!(store.get(b"test.u16"), Ok(Some(Value::U16(0x1234))));
    assert_eq!(store.take_notifications(w), vec![(b"test.u16".to_vec(), Value::U16(0x1234))]);
    assert!(store.apply_update(&[4, 7, 0, 0]).is_none());
    assert!(store.apply_update(&[1, 7, 0, 0x34]).is_none());
    assert_eq!(store.get(b"test.u16"), Ok(Some(Value::U16(0x1234))));
    assert!(store.apply_update(&[1, 99, 0, 1]).is_none());
}

#[test]
fn param_persistence_replies() {
    let req = misc_request(4, 7);
    assert_eq!((req.port, req.channel, req.data.clone()), (2, 3, vec![4, 7, 0]));
    let st = parse_persistent_state(&[4, 7, 0, 1, 0x01, 0x00, 0x02, 0x00], ValueType::U16).unwrap();
    assert_eq!(st.default_value, Value::U16(1));
    assert_eq!(st.stored_value, Some(Value::U16(2)));
    let st = parse_persistent_state(&[4, 7, 0, 0, 0x01, 0x00], ValueType::U16).unwrap();
    assert_eq!(st.stored_value, None);
    assert_eq!(parse_persistent_state(&[4, 7, 0, 3], ValueType::U16), Err(Error::ParamError(ParamFault::CommandCode(3))));
}

#[test]
fn log_periods() {
    assert_eq!(LogPeriod::from_millis(100).unwrap().units(), 10);
    assert_eq!(LogPeriod::from_millis(2550).unwrap().units(), 255);
    assert_eq!(LogPeriod::from_millis(5).unwrap_err(), Error::LogError(LogFault::InvalidPeriod));
    assert_eq!(LogPeriod::from_millis(2560).unwrap_err(), Error::LogError(LogFault::InvalidPeriod));
}

#[test]
fn log_block_ids_increase() {
    let mut ids = BlockIds::new();
    assert_eq!(ids.generate_next_block_id(), Ok(0));
    assert_eq!(ids.generate_next_block_id(), Ok(1));
    assert_eq!(ids.generate_next_block_id(), Ok(2));
    let mut last = BlockIds { next: 254 };
    assert_eq!(last.generate_next_block_id(), Ok(254));
    assert_eq!(last.generate_next_block_id(), Err(Error::LogError(LogFault::BlockIdsExhausted)));
    assert_eq!(last.generate_next_block_id(), Err(Error::LogError(LogFault::BlockIdsExhausted)));
}

#[test]
fn log_types() {
    assert_eq!(log_item_type(7), Ok(ValueType::F32));
    assert_eq!(log_item_type(9), Err(Error::ProtocolError));
    assert_eq!(log_type_byte(ValueType::F16), Ok(8));
    assert_eq!(log_type_byte(ValueType::U64), Err(Error::LogError(LogFault::UnsupportedType)));
}

#[test]
fn log_create_append_start() {
    let create = create_block_request(1);
    assert_eq!((create.port, create.channel, create.data.clone()), (5, 1, vec![6, 1]));
    let mut block = LogBlock::from_create_answer(1, &[6, 1, 0]).unwrap();
    let mut toc = Toc::new();
    toc.insert(entry("group.var", 0x2A, 7));
    let (append, t) = block.add_variable_request(&toc, b"group.var").unwrap();
    assert_eq!(append.data, vec![7, 1, 7, 0x2A, 0x00]);
    assert_eq!(append.data, append_block_request(1, 7, 0x2A).data);
    assert_eq!(t, ValueType::F32);
    block.complete_add_variable(b"group.var", t, &[7, 1, 0]).unwrap();
    let period = LogPeriod::from_millis(100).unwrap();
    assert_eq!(start_block_request(1, period).data, vec![3, 1, 10]);
    let stream = block.start(&[3, 1, 0]).unwrap();
    let x: f32 = 1.5;
    let mut payload = vec![0x10, 0x27, 0x00];
    payload.extend_from_slice(&x.to_le_bytes());
    let sample = stream.decode_packet(&payload).unwrap();
    assert_eq!(sample.timestamp, 10000);
    assert_eq!(sample.data, vec![(b"group.var".to_vec(), Value::F32(x.to_bits()))]);
    assert_eq!(stream.decode_packet(&[0x10, 0x27, 0x00, 1]).unwrap_err(), Error::ProtocolError);
    let block = stream.stop(&[4, 1, 0]).unwrap();
    assert_eq!(block.block_id(), 1);
}

#[test]
fn log_control_errors() {
    assert_eq!(control_status(&[6, 1, 5]), Err(Error::LogError(LogFault::Status(5))));
    assert_eq!(control_status(&[6, 1]), Err(Error::ProtocolError));
    assert!(LogBlock::from_create_answer(1, &[6, 1, 2]).is_err());
    let block = LogBlock::from_create_answer(1, &[6, 1, 0]).unwrap();
    let toc = Toc::new();
    assert!(matches!(block.add_variable_request(&toc, b"no.var"), Err(Error::VariableNotFound)));
}

#[test]
fn emergency_stop_packet() {
    let p = emergency_stop();
    assert_eq!((p.port, p.channel, p.data.clone()), (6, 1, vec![0x03]));
    let w = emergency_stop_watchdog();
    assert_eq!(w.data, vec![0x04]);
}

#[test]
fn ping_echo() {
    let ping = ping_request();
    assert_eq!((ping.port, ping.channel, ping.data.clone()), (15, 0, vec![0x01]));
    let reply = Packet::new(15, 0, vec![0x01]).unwrap();
    assert!(is_echo(&ping, &reply));
    let other = Packet::new(15, 0, vec![0x02]).unwrap();
    assert!(!is_echo(&ping, &other));
}

#[test]
fn localization_requests() {
    let p = lh_persist_request(&[0, 2], &[15]).unwrap();
    assert_eq!(p.data, vec![11, 0x05, 0x00, 0x00, 0x80]);
    assert_eq!(lh_persist_request(&[16], &[]).unwrap_err(), Error::InvalidArgument);
    let lpp = short_lpp_packet(3, &[9, 8]).unwrap();
    assert_eq!(lpp.data, vec![2, 3, 9, 8]);
    assert_eq!(short_lpp_packet(3, &[0; 29]).unwrap_err(), Error::InvalidArgument);
    assert_eq!(notify_setpoint_stop(0x01020304).data, vec![0, 4, 3, 2, 1]);
}

#[test]
fn protocol_versions() {
    assert_eq!(check_protocol_version(3), Err(Error::ProtocolVersionNotSupported));
    assert_eq!(check_protocol_version(4), Ok(()));
    assert_eq!(check_protocol_version(5), Ok(()));
    assert_eq!(check_protocol_version(6), Err(Error::ProtocolVersionNotSupported));
    assert_eq!(parse_protocol_version(&[0, 4]), Ok(4));
    assert_eq!(parse_protocol_version(&[1, 4]), Err(Error::ProtocolError));
}

#[test]
fn disconnect_is_final() {
    let mut c = Connection::new();
    assert_eq!(c.check(), Ok(()));
    let first = c.disconnect();
    assert!(first.join_uplink && first.join_dispatcher && first.close_link);
    assert_eq!(c.check(), Err(Error::Disconnected));
    let second = c.disconnect();
    assert!(!second.join_uplink && !second.join_dispatcher && !second.close_link);
    assert_eq!(c.check(), Err(Error::Disconnected));
}

#[test]
fn toc_cache_round_trip() {
    let mut toc = Toc::new();
    toc.insert(entry("test.u16", 7, 0x09));
    toc.insert(entry("group.var", 0x2A, 7));
    let key = toc_cache_key(2, 0x12345678);
    assert_eq!(key, vec![2, 0x78, 0x56, 0x34, 0x12]);
    let bytes = serialize_toc(&toc).unwrap();
    let mut cache = MemoryTocCache::new();
    assert_eq!(cache.get(&key), None);
    cache.store(&key, &bytes);
    let first = deserialize_toc(&cache.get(&key).unwrap()).unwrap();
    let second = deserialize_toc(&cache.get(&key).unwrap()).unwrap();
    assert_eq!(first.names(), toc.names());
    assert_eq!(serialize_toc(&first).unwrap(), bytes);
    assert_eq!(serialize_toc(&second).unwrap(), bytes);
    assert_eq!(cache.get(&toc_cache_key(2, 0x12345679)), None);
    assert!(matches!(deserialize_toc(&[1, 0, 9, 5, 0, 1]), Err(Error::ProtocolError)));
    assert_eq!(toc_from_cache(Some(&bytes)).unwrap().names(), toc.names());
    assert!(toc_from_cache(Some(&[1, 0, 9, 5, 0, 1])).is_none());
    assert!(toc_from_cache(None).is_none());
    let mut dup = bytes.clone();
    dup.extend_from_slice(&bytes);
    assert!(matches!(deserialize_toc(&dup), Err(Error::ProtocolError)));
}

#[test]
fn param_default_values() {
    let mut store = param_store();
    assert_eq!(store.get_default_value(b"test.u16"), Ok(DefaultValue::Unknown));
    assert_eq!(store.complete_default_value(b"test.u16", &[8, 7, 0, 0, 0x10, 0x00]), Ok(DefaultValue::Known(Value::U16(16))));
    assert_eq!(store.get_default_value(b"test.u16"), Ok(DefaultValue::Known(Value::U16(16))));
    assert_eq!(store.complete_default_value(b"test.f32", &[8, 8, 0, 2]), Ok(DefaultValue::Unsupported));
    assert_eq!(store.get_default_value(b"test.f32"), Ok(DefaultValue::Unsupported));
    assert_eq!(store.complete_default_value(b"ro.u8", &[8, 9]), Err(Error::ProtocolError));
    assert_eq!(store.get_default_value(b"ro.u8"), Ok(DefaultValue::Unknown));
    assert_eq!(store.get_default_value(b"no.such"), Err(Error::ParamError(ParamFault::NotFound)));
}

#[test]
fn log_session_blocks_and_routing() {
    let mut toc = Toc::new();
    toc.insert(entry("stab.roll", 1, 7));
    toc.insert(entry("bad.type", 2, 12));
    let mut log = Log::new(toc);
    assert_eq!(log.get_type(b"stab.roll"), Ok(ValueType::F32));
    assert_eq!(log.get_type(b"bad.type"), Err(Error::ProtocolError));
    assert_eq!(log.get_type(b"none"), Err(Error::VariableNotFound));
    assert_eq!(log.names().len(), 2);
    let (id, req) = log.create_block_request().unwrap();
    assert_eq!((id, req.data.clone()), (0, vec![6, 0]));
    assert_eq!(log.route_data(&[0, 1, 2, 3]), None);
    let block = log.complete_create(id, &[6, 0, 0]).unwrap();
    assert_eq!(block.block_id(), 0);
    assert_eq!(log.route_data(&[0, 1, 2, 3]), Some(0));
    assert_eq!(log.route_data(&[0]), None);
    let (id2, _) = log.create_block_request().unwrap();
    assert_eq!(id2, 1);
    assert!(log.complete_create(id2, &[6, 1, 3]).is_err());
    assert_eq!(log.route_data(&[1, 9, 9]), None);
    let (id3, _) = log.create_block_request().unwrap();
    log.complete_create(id3, &[6, 2, 0]).unwrap();
    let sweep = log.cleanup_requests(&[2]);
    assert_eq!(sweep.len(), 1);
    assert_eq!((sweep[0].port, sweep[0].channel, sweep[0].data.clone()), (5, 1, vec![2, 0]));
    assert_eq!(log.cleanup_requests(&[0, 2]).len(), 0);
    assert_eq!(log.complete_delete(0, &[2, 0, 0]), Ok(()));
    assert_eq!(log.route_data(&[0, 1, 2, 3]), None);
}

#[test]
fn localization_tags() {
    let angle = Packet::new(6, 1, vec![10, 0]).unwrap();
    assert_eq!(localization_frame(&angle), LocalizationFrame::AngleStream);
    let persist = Packet::new(6, 1, vec![11, 1]).unwrap();
    assert_eq!(localization_frame(&persist), LocalizationFrame::PersistConfirmation);
    let other = Packet::new(6, 0, vec![10]).unwrap();
    assert_eq!(localization_frame(&other), LocalizationFrame::Other);
}

#[test]
fn toc_type_checks_before_caching() {
    let mut log_toc = Toc::new();
    log_toc.insert(entry("stab.roll", 1, 7));
    assert_eq!(check_log_toc(&log_toc), Ok(()));
    log_toc.insert(entry("bad.type", 2, 12));
    assert_eq!(check_log_toc(&log_toc), Err(Error::ProtocolError));
    let mut param_toc = Toc::new();
    param_toc.insert(entry("test.u16", 7, 0x09));
    assert_eq!(check_param_toc(&param_toc), Ok(()));
    param_toc.insert(entry("bad.type", 8, 0x04));
    assert_eq!(check_param_toc(&param_toc), Err(Error::ProtocolError));
}
