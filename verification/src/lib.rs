pub mod text;
pub mod hexdata;
pub mod usb_defs;
pub mod usb_request_block;
pub mod pcap_writer;
pub mod device;
pub mod total_phase_parser;
pub mod packet_tree;
pub mod total_phase_csv_reader;
pub mod csv_export;
