# demuxusb-rs

Turns a Total Phase USB capture (a CSV export listing every packet and
transaction with its nesting level, plus a binary file holding the captured
data back to back) into a tree of packets or into USB request blocks written
as a pcapng file with the USBPcap link type.

Layout:

- `src/` — the verified library.
  - `text.rs`: the string handling the readers need (decimal numbers,
    trimming, splitting, suffixes), each with its contract.
  - `hexdata.rs`: hexadecimal data columns, through the `hex` crate.
  - `csv_export.rs`: the text of a CSV export: its preamble lines and its
    records, read with the `csv` crate.
  - `total_phase_parser.rs`: rows to packets, the packet tree, and the request
    blocks of a capture; laws on how data tiles the binary file and on the
    shape of the tree.
  - `packet_tree.rs`: the `indextree` arena that holds the tree, behind
    wrappers whose contracts model it as a sequence of nodes.
  - `total_phase_csv_reader.rs`: the simpler CSV-only reader.
  - `pcap_writer.rs`: the USBPcap packet header and the bytes of the capture
    packet of a request block, with round-trip laws.
  - `device.rs`: device discovery from SET_ADDRESS requests.
  - `usb_request_block.rs`, `usb_defs.rs`: the USB data model.
- `app/` — the command-line tool: argument handling, reading the capture files into memory,
  writing the pcapng file, printing the tree.
- `tests/` — tests of the library on small captures built in memory.
