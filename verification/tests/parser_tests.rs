use demuxusb_rs::total_phase_parser::{
    capture_base_name, duration_from_totalphase_duration, operation_to_operation_type, time_from_totalphase_timestamp,
    total_phase_to_usb_function, ConnectionState, DataRecord, OperationType, ResetType,
    TotalPhaseReader, USBPacket,
};
use demuxusb_rs::usb_request_block::{
    USBControlStage, USBDirection, USBFunction, USBSpeed, USBTransferType,
};

fn row(cols: &[&str]) -> Vec<String> {
    cols.iter().map(|c| c.to_string()).collect()
}

#[test]
fn operation_names_map_to_operations() {
    assert_eq!(operation_to_operation_type("Set Address".to_string()), OperationType::SetAddress);
    assert_eq!(operation_to_operation_type("IN txn".to_string()), OperationType::InputTransaction);
    assert_eq!(operation_to_operation_type("OUT tx".to_string()), OperationType::OutputTransaction);
    assert_eq!(operation_to_operation_type("OUT txn (NYET)".to_string()), OperationType::OutputTransaction);
    assert_eq!(operation_to_operation_type("".to_string()), OperationType::Unknown);
    assert_eq!(
        operation_to_operation_type("Detach".to_string()),
        OperationType::TargetState(ConnectionState::Disconnected)
    );
    assert_eq!(
        operation_to_operation_type("<Reset> / <Chirp J> / <Tiny J>".to_string()),
        OperationType::Reset(ResetType::ChirpJTinyJ)
    );
    assert_eq!(
        operation_to_operation_type("<High-speed>".to_string()),
        OperationType::SpeedTransition(USBSpeed::SpeedHigh)
    );
}

#[test]
fn operations_have_usb_functions() {
    assert_eq!(total_phase_to_usb_function(OperationType::GetDeviceDescriptor), USBFunction::GetDescriptorFromDevice);
    assert_eq!(total_phase_to_usb_function(OperationType::SetConfiguration), USBFunction::SelectConfiguration);
    assert_eq!(total_phase_to_usb_function(OperationType::ControlTransfer), USBFunction::ControlTransferEx);
    assert_eq!(total_phase_to_usb_function(OperationType::Data1Packet), USBFunction::ControlTransfer);
    assert_eq!(total_phase_to_usb_function(OperationType::InputTransaction), USBFunction::BulkOrInterruptTransfer);
    assert_eq!(total_phase_to_usb_function(OperationType::GetConfigurationDescriptor), USBFunction::GetConfiguration);
    assert_eq!(total_phase_to_usb_function(OperationType::SetAddress), USBFunction::Unknown);
    assert_eq!(total_phase_to_usb_function(OperationType::StallPacket), USBFunction::Unknown);
}

#[test]
fn timestamps_are_minutes_seconds_millis_micros() {
    assert_eq!(time_from_totalphase_timestamp("1:02.003.004"), 60_000_000 + 2_000_000 + 3_000 + 4);
    assert_eq!(time_from_totalphase_timestamp("0:00.000.100"), 100);
    assert_eq!(time_from_totalphase_timestamp("x:1.2.3"), 1_000_000 + 2_000 + 3);
    assert_eq!(time_from_totalphase_timestamp("12"), 0);
    assert_eq!(time_from_totalphase_timestamp("1:02.003"), 0);
}

#[test]
fn durations_follow_their_unit() {
    assert_eq!(duration_from_totalphase_duration(None), None);
    assert_eq!(duration_from_totalphase_duration(Some("")), None);
    assert_eq!(duration_from_totalphase_duration(Some("5 ns")), Some(5));
    assert_eq!(duration_from_totalphase_duration(Some("12.345 us")), Some(12 + 345 * 1000));
    assert_eq!(duration_from_totalphase_duration(Some("1.2.3 ms")), Some(3 + (1000 + 2) + (1000 + 1000)));
    assert_eq!(
        duration_from_totalphase_duration(Some("1.2.3.4 s")),
        Some(1_000_000_000 + 4 + (1000 + 3) + (1000 + 2 * 1000))
    );
}

fn capture() -> (Vec<Vec<String>>, Vec<u8>) {
    let rows = vec![
        row(&["0", "HS", "1", "0:00.000.100", "", "", "", "1", "0", "Get Device Descriptor", "", "desc"]),
        row(&["1", "HS", "2", "0:00.000.110", "1.500 us", "8 B", "", "1", "0", "SETUP txn", "80 06 00 01 00 00 12 00", ""]),
        row(&["1", "HS", "3", "0:00.000.120", "2 ns", "4 B", "", "1", "0", "IN txn", "12 01 00 02", ""]),
        row(&["1", "HS", "4", "0:00.000.130", "", "0 B", "", "1", "0", "OUT txn", "", ""]),
        row(&["0", "FS", "5", "0:00.001.000", "3.000 us", "2 B", "", "2", "1", "IN txn [Periodic]", "AB CD", "bulk"]),
        row(&["0", "", "6", "0:00.002.000", "", "", "", "", "", "SOF packet", "", ""]),
        row(&["0", "HS", "7", "0:00.003.000", "", "3 B", "", "2", "2", "OUT txn (STALL)", "01 02 ...", ""]),
    ];
    let mut bin = vec![0x80, 0x06, 0x00, 0x01, 0x00, 0x00, 0x12, 0x00];
    bin.extend([0x12, 0x01, 0x00, 0x02]);
    bin.extend([0xab, 0xcd]);
    bin.extend([0x01, 0x02, 0x03]);
    (rows, bin)
}

#[test]
fn packet_from_row_reads_every_column() {
    let (rows, bin) = capture();
    let p = USBPacket::new(&rows[4], 12, &bin);
    assert_eq!(p.level, 0);
    assert_eq!(p.index, 5);
    assert_eq!(p.speed, USBSpeed::SpeedLow);
    assert_eq!(p.device_id, Some(2));
    assert_eq!(p.endpoint_id, Some(1));
    assert_eq!(p.operation, OperationType::InputTransaction);
    assert_eq!(p.extra, Some("Periodic".to_string()));
    assert_eq!(p.length, Some(2));
    assert_eq!(p.timestamp, 1_000);
    assert_eq!(p.duration_us, Some(3));
    assert_eq!(p.data_offset, Some(12));
    assert_eq!(p.data, Some(vec![0xab, 0xcd]));
    assert!(matches!(p.short_data, DataRecord::Data(ref d) if d == &vec![0xab, 0xcd]));
    assert_eq!(p.summary, "bulk");
    assert!(!p.stall);
    assert!(p.error.is_none());
}

#[test]
fn stall_marker_and_partial_data() {
    let (rows, bin) = capture();
    let p = USBPacket::new(&rows[6], 14, &bin);
    assert_eq!(p.operation, OperationType::OutputTransaction);
    assert!(p.stall);
    assert!(matches!(p.short_data, DataRecord::PartialData(ref d) if d == &vec![0x01, 0x02]));
    assert_eq!(p.data, Some(vec![0x01, 0x02, 0x03]));
    let sof = USBPacket::new(&rows[5], 14, &bin);
    assert_eq!(sof.device_id, None);
    assert_eq!(sof.length, None);
    assert_eq!(sof.data_offset, None);
    assert_eq!(sof.data, Some(Vec::new()));
    assert!(!sof.is_interesting());
}

#[test]
fn read_places_data_back_to_back() {
    let (rows, bin) = capture();
    let mut reader = TotalPhaseReader::new("capture", rows, bin.clone());
    let packets = reader.read().unwrap();
    assert_eq!(packets.len(), 7);
    assert!(reader.read().unwrap().is_empty());
    let offsets: Vec<Option<u64>> = packets.iter().map(|p| p.data_offset).collect();
    assert_eq!(offsets, vec![None, Some(0), Some(8), Some(12), Some(12), None, Some(14)]);
    let total_len: u64 = packets.iter().map(|p| p.length.unwrap_or(0)).sum();
    assert_eq!(total_len, bin.len() as u64);
    let joined: Vec<u8> = packets.iter().flat_map(|p| p.data.clone().unwrap()).collect();
    assert_eq!(joined, bin);
}

#[test]
fn tree_nests_rows_by_level() {
    let (rows, bin) = capture();
    let mut reader = TotalPhaseReader::new("capture", rows.clone(), bin.clone());
    let tree = reader.read_tree(false).unwrap();
    let ids: Vec<_> = tree.iter().map(|n| tree.get_node_id(n).unwrap()).collect();
    assert_eq!(ids.len(), 7);
    let roots: Vec<u64> = tree.iter().filter(|n| n.parent().is_none()).map(|n| n.get().index).collect();
    assert_eq!(roots, vec![1, 5, 6, 7]);
    let children: Vec<u64> = ids[0].children(&tree).map(|c| tree[c].get().index).collect();
    assert_eq!(children, vec![2, 3, 4]);
    assert_eq!(reader.read_tree(false).unwrap().iter().count(), 0);
    let interesting = TotalPhaseReader::new("capture", rows, bin).read_tree(true).unwrap();
    assert_eq!(interesting.iter().count(), 6);
}

#[test]
fn request_blocks_of_a_capture() {
    let (rows, bin) = capture();
    let mut reader = TotalPhaseReader::new("capture", rows, bin);
    let urbs = reader.usb_request_blocks().unwrap();
    assert_eq!(urbs.len(), 4);
    assert!(reader.usb_request_blocks().unwrap().is_empty());

    let setup = &urbs[0];
    assert_eq!(setup.direction, USBDirection::DirectionOut);
    assert_eq!(setup.transfer_type, USBTransferType::Control);
    assert_eq!(setup.control_stage, Some(USBControlStage::Setup));
    assert_eq!(setup.data, vec![0x80, 0x06, 0x00, 0x01, 0x00, 0x00, 0x12, 0x00]);
    assert_eq!(setup.index, 1);
    assert_eq!(setup.index_ns, 110);
    assert_eq!(setup.duration_ns, 1 + 500 * 1000);
    assert_eq!(setup.usb_function, USBFunction::GetDescriptorFromDevice);
    assert_eq!(setup.device_number, 1);

    let data = &urbs[1];
    assert_eq!(data.direction, USBDirection::DirectionIn);
    assert_eq!(data.control_stage, Some(USBControlStage::Data));
    assert_eq!(data.data, vec![0x12, 0x01, 0x00, 0x02]);

    let bulk_in = &urbs[2];
    assert_eq!(bulk_in.direction, USBDirection::DirectionIn);
    assert_eq!(bulk_in.transfer_type, USBTransferType::Bulk);
    assert_eq!(bulk_in.control_stage, None);
    assert_eq!(bulk_in.data, vec![0xab, 0xcd]);
    assert_eq!(bulk_in.endpoint_number, 1);
    assert_eq!(bulk_in.duration_ns, 3);

    let bulk_out = &urbs[3];
    assert_eq!(bulk_out.direction, USBDirection::DirectionOut);
    assert_eq!(bulk_out.data, vec![0x01, 0x02, 0x03]);
    assert_eq!(bulk_out.index, 7);
}

#[test]
fn read_data_gives_an_empty_buffer_for_packets_with_data() {
    let (rows, bin) = capture();
    let mut reader = TotalPhaseReader::new("capture", rows.clone(), bin.clone());
    let p = USBPacket::new(&rows[1], 0, &bin);
    assert_eq!(reader.read_data(p), Some(Vec::new()));
    let q = USBPacket::new(&rows[0], 0, &bin);
    assert_eq!(reader.read_data(q), None);
}

#[test]
fn dict_data_lists_index_device_and_endpoint() {
    let (rows, bin) = capture();
    let p = USBPacket::new(&rows[4], 12, &bin);
    let m = p.dict_data();
    assert_eq!(m.get("idx").map(|s| s.as_str()), Some("5"));
    assert_eq!(m.get("dev").map(|s| s.as_str()), Some("2"));
    assert_eq!(m.get("ep").map(|s| s.as_str()), Some("1"));
    assert_eq!(m.len(), 3);
}

#[test]
fn readable_captures_are_recognised() {
    let (rows, bin) = capture();
    let reader = TotalPhaseReader::new("capture", rows.clone(), bin.clone());
    assert!(reader.is_readable());
    assert!(reader.is_tree_readable(false));
    assert!(reader.is_tree_readable(true));
    assert!(reader.is_urbs_readable());

    let short = TotalPhaseReader::new("capture", rows.clone(), bin[..16].to_vec());
    assert!(!short.is_readable());
    assert!(!short.is_tree_readable(false));

    let mut bad_level = rows.clone();
    bad_level[2][0] = "x".to_string();
    assert!(!TotalPhaseReader::new("capture", bad_level, bin.clone()).is_readable());

    let mut unknown_op = rows.clone();
    unknown_op[5][9] = "Frobnicate".to_string();
    assert!(!TotalPhaseReader::new("capture", unknown_op, bin.clone()).is_readable());

    let mut too_short = rows.clone();
    too_short[5].truncate(11);
    assert!(!TotalPhaseReader::new("capture", too_short, bin.clone()).is_readable());
}

#[test]
fn nested_first_row_has_no_tree() {
    let (rows, bin) = capture();
    let orphan = rows[1..].to_vec();
    let reader = TotalPhaseReader::new("capture", orphan, bin[..].to_vec());
    assert!(!reader.is_tree_readable(false));
    assert!(!reader.is_urbs_readable());
}

#[test]
fn control_request_without_setup_cannot_give_blocks() {
    let (rows, bin) = capture();
    let lone = vec![rows[0].clone()];
    let reader = TotalPhaseReader::new("capture", lone, bin);
    assert!(reader.is_tree_readable(true));
    assert!(!reader.is_urbs_readable());
}

#[test]
fn transaction_without_device_cannot_give_blocks() {
    let (rows, bin) = capture();
    let mut v = vec![rows[4].clone()];
    v[0][7] = "".to_string();
    let reader = TotalPhaseReader::new("capture", v, bin[8..14].to_vec());
    assert!(reader.is_tree_readable(true));
    assert!(!reader.is_urbs_readable());
}

#[test]
fn capture_base_names() {
    assert_eq!(capture_base_name("dir/capture.csv"), "dir/capture");
    assert_eq!(capture_base_name("capture.bin"), "capture");
    assert_eq!(capture_base_name("capture"), "capture");
    assert_eq!(capture_base_name("capture.bin.csv"), "capture");
    assert_eq!(capture_base_name("capture.csv.bin"), "capture.csv");
}

#[test]
fn children_are_recorded_in_order() {
    let (rows, bin) = capture();
    let setup = USBPacket::new(&rows[1], 0, &bin);
    let input = USBPacket::new(&rows[2], 8, &bin);
    let mut parent = USBPacket::new(&rows[0], 0, &bin);
    assert!(parent.children.is_empty());
    parent.add_child(&setup);
    parent.add_child(&input);
    let idx: Vec<u64> = parent.children.iter().map(|c| c.index).collect();
    assert_eq!(idx, vec![2, 3]);
    assert_eq!(parent.index, 1);
}

#[test]
fn operations_with_a_known_function_are_interesting() {
    let (rows, bin) = capture();
    let descriptor = USBPacket::new(&rows[0], 0, &bin);
    assert_ne!(total_phase_to_usb_function(descriptor.operation), USBFunction::Unknown);
    assert!(descriptor.is_interesting());
    let bulk = USBPacket::new(&rows[4], 12, &bin);
    assert_ne!(total_phase_to_usb_function(bulk.operation), USBFunction::Unknown);
    assert!(bulk.is_interesting());
    let sof = USBPacket::new(&rows[5], 14, &bin);
    assert_eq!(total_phase_to_usb_function(sof.operation), USBFunction::Unknown);
    assert!(!sof.is_interesting());
}

#[test]
fn plain_microsecond_durations() {
    assert_eq!(duration_from_totalphase_duration(Some("12 us")), Some(12));
    assert_eq!(duration_from_totalphase_duration(Some("0 us")), Some(0));
}

#[test]
fn timestamps_order_by_their_fields() {
    let a = time_from_totalphase_timestamp("1:00.000.000");
    let b = time_from_totalphase_timestamp("0:59.999.999");
    let c = time_from_totalphase_timestamp("0:59.999.998");
    assert!(c < b && b < a);
    assert_eq!(time_from_totalphase_timestamp("2:03.004.005"), time_from_totalphase_timestamp("2:03.004.005"));
}

#[test]
fn request_blocks_have_their_shapes() {
    let (rows, bin) = capture();
    let mut reader = TotalPhaseReader::new("capture", rows, bin);
    let urbs = reader.usb_request_blocks().unwrap();
    for (i, u) in urbs.iter().enumerate() {
        assert_ne!(u.direction, USBDirection::DirectionNone);
        match u.transfer_type {
            USBTransferType::Bulk => assert_eq!(u.control_stage, None),
            USBTransferType::Control => assert!(matches!(
                u.control_stage,
                Some(USBControlStage::Setup) | Some(USBControlStage::Data)
            )),
            _ => panic!("unexpected transfer type"),
        }
        if u.control_stage == Some(USBControlStage::Data) {
            assert_eq!(urbs[i - 1].control_stage, Some(USBControlStage::Setup));
            assert_eq!(urbs[i - 1].index, u.index);
        }
    }
}
