use demuxusb_rs::csv_export::skip_lines;
use demuxusb_rs::total_phase_csv_reader::TotalPhaseCsvReader;
use demuxusb_rs::total_phase_parser::TotalPhaseReader;

const PREAMBLE: &str = "Total Phase Data Center\nExported\n\nDevice: Beagle\n\n\n";
const HEADER: &str = "Level,Sp,Index,m:s.ms.us,Dur,Len,Err,Dev,Ep,Record,Data,Summary\n";

fn export(rows: &[&str]) -> Vec<u8> {
    let mut text = String::from(PREAMBLE);
    text.push_str(HEADER);
    for r in rows {
        text.push_str(r);
        text.push('\n');
    }
    text.into_bytes()
}

#[test]
fn preamble_lines_are_skipped() {
    assert_eq!(skip_lines(b"a\nb\nc", 2), Some(b"c".to_vec()));
    assert_eq!(skip_lines(b"a\nb\n", 2), Some(Vec::new()));
    assert_eq!(skip_lines(b"a", 3), Some(Vec::new()));
    assert_eq!(skip_lines(b"x\n", 0), Some(b"x\n".to_vec()));
    assert_eq!(skip_lines(b"\xff\nrest", 1), None);
    assert_eq!(skip_lines(b"ok\n\xffrest", 1), Some(b"\xffrest".to_vec()));
    assert_eq!(skip_lines("é\nz".as_bytes(), 1), Some(b"z".to_vec()));
}

#[test]
fn capture_rows_come_from_the_export_text() {
    let text = export(&[
        "0,HS,1,0:00.000.100,,,,1,0,Get Device Descriptor,,desc",
        "1,HS,2,0:00.000.110,1.500 us,8 B,,1,0,SETUP txn,80 06 00 01 00 00 12 00,",
        "0,FS,3,0:00.001.000,12 us,2 B,,2,1,IN txn,AB CD,bulk",
        "0,,4,0:00.002.000",
    ]);
    let bin = vec![0x80, 0x06, 0x00, 0x01, 0x00, 0x00, 0x12, 0x00, 0xab, 0xcd];
    let mut reader = TotalPhaseReader::from_capture("cap", &text, bin.clone()).unwrap();
    assert!(!reader.is_readable());
    let text = export(&[
        "0,HS,1,0:00.000.100,,,,1,0,Get Device Descriptor,,desc",
        "1,HS,2,0:00.000.110,1.500 us,8 B,,1,0,SETUP txn,80 06 00 01 00 00 12 00,",
        "0,FS,3,0:00.001.000,12 us,2 B,,2,1,IN txn,AB CD,bulk",
    ]);
    reader = TotalPhaseReader::from_capture("cap", &text, bin.clone()).unwrap();
    assert!(reader.is_readable());
    let packets = reader.read().unwrap();
    assert_eq!(packets.len(), 3);
    assert_eq!(packets[0].summary, "desc");
    assert_eq!(packets[1].data, Some(bin[..8].to_vec()));
    assert_eq!(packets[2].duration_us, Some(12));
    assert_eq!(packets[2].data, Some(vec![0xab, 0xcd]));
}

#[test]
fn unreadable_exports_give_no_capture() {
    let mut text = b"\xff\xfe\n".to_vec();
    text.extend(export(&[]));
    assert!(TotalPhaseReader::from_capture("cap", &text, Vec::new()).is_none());
    let empty = TotalPhaseReader::from_capture("cap", &export(&[]), Vec::new()).unwrap();
    assert!(empty.is_readable());
}

#[test]
fn simple_reader_reports_rejected_records() {
    let text = export(&[
        "0,HS,1,0:00.000.100,,3 B,,4,1,IN txn,01 02 03,x",
        "0,HS,2,short",
        "0,LS,4,0:00.000.130,,1 B,,4,2,OUT txn,zz,",
    ]);
    let (mut reader, errors) = TotalPhaseCsvReader::from_export(&text).unwrap();
    assert_eq!(errors.len(), 1);
    assert!(reader.is_parsable());
    let urbs = reader.parse();
    assert_eq!(urbs.len(), 2);
    assert_eq!(urbs[0].data, vec![1, 2, 3]);
    assert_eq!(urbs[1].endpoint_number, 2);
    assert!(TotalPhaseCsvReader::from_export(b"\xff\n").is_none());
}

#[test]
fn csv_errors_come_back_when_reading() {
    let mut text = export(&["0,HS,1,0:00.000.100,,,,1,0,SOF packet,,a"]);
    text.extend(b"0,HS,2,\xff\n");
    text.extend(b"0,HS,3,0:00.000.300,,,,1,0,SOF packet,,c\n");
    let mut reader = TotalPhaseReader::from_capture("cap", &text, Vec::new()).unwrap();
    assert!(reader.is_readable());
    assert!(reader.is_tree_readable(true));
    assert!(reader.is_urbs_readable());
    let first = reader.read();
    assert!(first.is_err());
    let rest = reader.read().unwrap();
    assert_eq!(rest.len(), 1);
    assert_eq!(rest[0].index, 3);
    assert!(reader.read().unwrap().is_empty());

    let mut again = TotalPhaseReader::from_capture("cap", &text, Vec::new()).unwrap();
    assert!(again.usb_request_blocks().is_err());
    assert!(again.read_tree(false).is_ok());
}
