use demuxusb_rs::device::{control_request, packet_is_readable, parse_devices};
use demuxusb_rs::pcap_writer::{
    urb_header, urb_packet_bytes, urb_packets, urbs_encodable, USBPcapPacketHeader, USBPCAP_HEADER_SIZE,
};
use demuxusb_rs::total_phase_csv_reader::TotalPhaseCsvReader;
use demuxusb_rs::usb_request_block::{
    USBClassCode, USBControlRequest, USBControlRequestType, USBControlStage, USBDescriptorType,
    USBDirection, USBFunction, USBRequestBlock, USBSpeed, USBTransferType,
};

fn urb(direction: USBDirection, transfer_type: USBTransferType, stage: Option<USBControlStage>, data: Vec<u8>) -> USBRequestBlock {
    USBRequestBlock {
        direction,
        speed: USBSpeed::SpeedHigh,
        device_number: 5,
        endpoint_number: 2,
        index: 0x0102_0304,
        index_ns: 77,
        duration_ns: 3,
        data,
        transfer_type,
        control_stage: stage,
        usb_function: USBFunction::BulkOrInterruptTransfer,
    }
}

#[test]
fn header_bytes_are_packed_little_endian() {
    let h = USBPcapPacketHeader {
        header_length: 27,
        io_packet_id: 0x0807060504030201,
        usb_status: 0x0c0b0a09,
        urb_function: 0x0009,
        info: 1,
        bus: 0x0201,
        device: 0x0005,
        endpoint: 0x81,
        transfer: 3,
        data_length: 0x00000010,
    };
    let b = h.to_bytes();
    assert_eq!(b.len(), USBPCAP_HEADER_SIZE);
    assert_eq!(
        b,
        vec![27, 0, 1, 2, 3, 4, 5, 6, 7, 8, 9, 10, 11, 12, 9, 0, 1, 1, 2, 5, 0, 0x81, 3, 0x10, 0, 0, 0]
    );
    assert_eq!(USBPcapPacketHeader::read_from_bytes(&b), Some(h));
    assert_eq!(USBPcapPacketHeader::read_from_bytes(&b[..26]), None);
}

#[test]
fn any_header_bytes_read_back_unchanged() {
    let b: Vec<u8> = (0u8..27).map(|i| i.wrapping_mul(37).wrapping_add(11)).collect();
    let h = USBPcapPacketHeader::read_from_bytes(&b).unwrap();
    assert_eq!(h.to_bytes(), b);
}

#[test]
fn bulk_in_packet_layout() {
    let u = urb(USBDirection::DirectionIn, USBTransferType::Bulk, None, vec![0xaa, 0xbb]);
    let h = urb_header(&u);
    assert_eq!(h.header_length, 27);
    assert_eq!(h.endpoint, 0x82);
    assert_eq!(h.info, 1);
    assert_eq!(h.transfer, 3);
    assert_eq!(h.io_packet_id, 0x0102_0304);
    assert_eq!(h.device, 5);
    assert_eq!(h.data_length, 2);
    assert_eq!(h.urb_function, 0x0009);
    let bytes = urb_packet_bytes(&u);
    assert_eq!(bytes.len(), 29);
    assert_eq!(&bytes[..27], h.to_bytes().as_slice());
    assert_eq!(&bytes[27..], &[0xaa, 0xbb]);
}

#[test]
fn control_packet_has_stage_byte() {
    let u = urb(USBDirection::DirectionOut, USBTransferType::Control, Some(USBControlStage::Setup), vec![1, 2, 3]);
    let h = urb_header(&u);
    assert_eq!(h.header_length, 28);
    assert_eq!(h.endpoint, 2);
    assert_eq!(h.info, 0);
    assert_eq!(h.transfer, 2);
    let bytes = urb_packet_bytes(&u);
    assert_eq!(bytes.len(), 27 + 1 + 3);
    assert_eq!(bytes[27], 0);
    let d = urb(USBDirection::DirectionIn, USBTransferType::Control, Some(USBControlStage::Data), vec![]);
    assert_eq!(urb_packet_bytes(&d)[27], 1);
    let c = urb(USBDirection::DirectionIn, USBTransferType::Control, Some(USBControlStage::Complete), vec![]);
    assert_eq!(urb_packet_bytes(&c)[27], 3);
}

fn control_capture_packet(request: u8, value: u16) -> Vec<u8> {
    let h = USBPcapPacketHeader {
        header_length: 28,
        io_packet_id: 1,
        usb_status: 0,
        urb_function: 0x0008,
        info: 0,
        bus: 0,
        device: 0,
        endpoint: 0,
        transfer: 2,
        data_length: 8,
    };
    let mut b = h.to_bytes();
    b.push(0);
    b.extend([0x00, request, (value & 0xff) as u8, (value >> 8) as u8, 0, 0, 0, 0]);
    b
}

#[test]
fn setup_requests_decode() {
    let r = USBControlRequest::try_from_bytes(&[0x80, 0x06, 0x00, 0x01, 0x00, 0x00, 0x12, 0x00]).unwrap();
    assert_eq!(r.request_type, USBControlRequestType::UsbReqGetDescriptor);
    assert_eq!(r.value, 0x0100);
    assert_eq!(r.length, 0x12);
    assert_eq!(USBControlRequest::try_from_bytes(&[0, 0x02, 0, 0, 0, 0, 0, 0]), None);
    assert_eq!(USBControlRequest::try_from_bytes(&[0, 0x05, 0, 0, 0, 0, 0]), None);
    let p = control_capture_packet(0x00, 0);
    assert_eq!(control_request(&p).unwrap().request_type, USBControlRequestType::UsbReqGetStatus);
}

#[test]
fn devices_come_from_set_address_requests() {
    let bulk = urb_packet_bytes(&urb(USBDirection::DirectionIn, USBTransferType::Bulk, None, vec![9]));
    let packets = vec![
        control_capture_packet(0x05, 7),
        control_capture_packet(0x00, 0),
        bulk,
        control_capture_packet(0x05, 0x0103),
        control_capture_packet(0x05, 7),
    ];
    let devices = parse_devices(packets);
    assert_eq!(devices.len(), 2);
    assert_eq!(devices[&7].len(), 2);
    assert_eq!(devices[&3].len(), 1);
}

#[test]
fn request_block_predicates() {
    let mut u = urb(USBDirection::DirectionOut, USBTransferType::Bulk, None, vec![]);
    assert!(!u.is_unconfigured());
    assert!(!u.is_control());
    u.device_number = 0;
    u.endpoint_number = 0;
    assert!(u.is_unconfigured());
    assert!(u.is_control());
}

#[test]
fn standard_codes() {
    assert_eq!(USBClassCode::HumanInterfaceDevice.code(), 0x03);
    assert_eq!(USBClassCode::VendorSpecific.code(), 0xff);
    assert_eq!(USBDescriptorType::BOS.code(), 0x0f);
    assert_eq!(USBFunction::ControlTransferEx.code(), 0x0032);
    assert_eq!(USBControlRequestType::from_code(0x05), Some(USBControlRequestType::UsbReqSetAddress));
    assert_eq!(USBControlRequestType::from_code(0x02), None);
}

fn row(cols: &[&str]) -> Vec<String> {
    cols.iter().map(|c| c.to_string()).collect()
}

#[test]
fn csv_reader_turns_top_level_rows_into_blocks() {
    let rows = vec![
        row(&["0", "HS", "1", "0:00.000.100", "", "3 B", "", "4", "1", "IN txn", "01 02 03", "x"]),
        row(&["1", "HS", "2", "0:00.000.110", "", "", "", "4", "1", "IN packet", "", ""]),
        row(&["#", "comment"]),
        row(&["0", "FS", "3", "0:00.000.120", "", "", "", "", "", "SOF packet", "", ""]),
        row(&["0", "LS", "4", "0:00.000.130", "", "1 B", "", "4", "2", "OUT txn", "zz", ""]),
    ];
    let mut reader = TotalPhaseCsvReader::new(rows);
    let urbs = reader.parse();
    assert_eq!(urbs.len(), 2);
    assert_eq!(urbs[0].direction, USBDirection::DirectionIn);
    assert_eq!(urbs[0].data, vec![1, 2, 3]);
    assert_eq!(urbs[0].speed, USBSpeed::SpeedHigh);
    assert_eq!(urbs[0].index, 1);
    assert_eq!(urbs[1].direction, USBDirection::DirectionOut);
    assert_eq!(urbs[1].data, Vec::<u8>::new());
    assert_eq!(urbs[1].speed, USBSpeed::SpeedLow);
    assert_eq!(urbs[1].endpoint_number, 2);
    assert_eq!(reader.parse().len(), 0);
}

#[test]
fn readable_capture_packets() {
    let p = control_capture_packet(0x05, 7);
    assert!(packet_is_readable(&p));
    assert!(!packet_is_readable(&p[..20]));
    assert!(!packet_is_readable(&p[..27]));
    let mut unknown_request = p.clone();
    unknown_request[29] = 0x02;
    assert!(!packet_is_readable(&unknown_request));
    let bulk = urb_packet_bytes(&urb(USBDirection::DirectionIn, USBTransferType::Bulk, None, vec![]));
    assert!(packet_is_readable(&bulk));
}

#[test]
fn csv_rows_that_can_be_parsed() {
    let good = vec![
        row(&["0", "HS", "1", "t", "", "", "", "4", "1", "IN txn", "01"]),
        row(&["1", "x"]),
        row(&["#"]),
    ];
    assert!(TotalPhaseCsvReader::new(good).is_parsable());
    let short = vec![row(&["0", "HS", "1", "t", "", "", "", "4", "1", "IN txn"])];
    assert!(!TotalPhaseCsvReader::new(short).is_parsable());
    let bad_index = vec![row(&["0", "HS", "5000000000", "t", "", "", "", "4", "1", "IN txn", ""])];
    assert!(!TotalPhaseCsvReader::new(bad_index).is_parsable());
    let empty_row = vec![Vec::new()];
    assert!(!TotalPhaseCsvReader::new(empty_row).is_parsable());
}

#[test]
fn capture_packets_of_request_blocks() {
    let urbs = vec![
        urb(USBDirection::DirectionIn, USBTransferType::Bulk, None, vec![1, 2]),
        urb(USBDirection::DirectionOut, USBTransferType::Control, Some(USBControlStage::Setup), vec![3]),
    ];
    assert!(urbs_encodable(&urbs));
    let packets = urb_packets(&urbs);
    assert_eq!(packets.len(), 2);
    assert_eq!(packets[0].0, 77);
    assert_eq!(packets[0].1, urb_packet_bytes(&urbs[0]));
    assert_eq!(packets[0].1.len(), USBPCAP_HEADER_SIZE + 2);
    assert_eq!(packets[1].1.len(), USBPCAP_HEADER_SIZE + 1 + 1);
    assert_eq!(packets[1].1[USBPCAP_HEADER_SIZE], 0);

    let mut high = urb(USBDirection::DirectionIn, USBTransferType::Bulk, None, vec![]);
    high.endpoint_number = 0x80;
    assert!(!urbs_encodable(&vec![high]));
    let mut out = urb(USBDirection::DirectionOut, USBTransferType::Bulk, None, vec![]);
    out.endpoint_number = 0x80;
    assert!(urbs_encodable(&vec![out]));
}
