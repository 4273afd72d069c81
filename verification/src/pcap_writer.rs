//! USBPcap packet encoding: the 27-byte little-endian packet header and the
//! bytes of one capture packet built from a USB request block.
use crate::usb_request_block::{
    USBControlStage, USBDirection, USBFunction, USBRequestBlock, USBTransferType,
};
use vstd::prelude::*;

verus! {

/// Size of the packed USBPcap packet header.
pub const USBPCAP_HEADER_SIZE: usize = 27;

// ----------------------------------------------------------------------------
// Little-endian integers
// ----------------------------------------------------------------------------

pub open spec fn pow256(n: nat) -> nat
    decreases n,
{
    if n == 0 {
        1
    } else {
        256 * pow256((n - 1) as nat)
    }
}

/// The `n` least significant bytes of `x`, least significant first.
pub open spec fn le_bytes(x: nat, n: nat) -> Seq<u8>
    decreases n,
{
    if n == 0 {
        Seq::<u8>::empty()
    } else {
        seq![(x % 256) as u8] + le_bytes(x / 256, (n - 1) as nat)
    }
}

/// The number that little-endian bytes `s` encode.
pub open spec fn le_value(s: Seq<u8>) -> nat
    decreases s.len(),
{
    if s.len() == 0 {
        0
    } else {
        s[0] as nat + 256 * le_value(s.skip(1))
    }
}

proof fn lemma_le_bytes_len(x: nat, n: nat)
    ensures
        le_bytes(x, n).len() == n,
    decreases n,
{
    if n > 0 {
        lemma_le_bytes_len(x / 256, (n - 1) as nat);
    }
}

proof fn lemma_le_value_bound(s: Seq<u8>)
    ensures
        le_value(s) < pow256(s.len()),
    decreases s.len(),
{
    if s.len() > 0 {
        lemma_le_value_bound(s.skip(1));
    }
}

proof fn lemma_le_value_of_bytes(x: nat, n: nat)
    requires
        x < pow256(n),
    ensures
        le_value(le_bytes(x, n)) == x,
    decreases n,
{
    lemma_le_bytes_len(x, n);
    if n > 0 {
        lemma_le_value_of_bytes(x / 256, (n - 1) as nat);
        let s = le_bytes(x, n);
        assert(s.skip(1) =~= le_bytes(x / 256, (n - 1) as nat));
    }
}

proof fn lemma_le_bytes_of_value(s: Seq<u8>)
    ensures
        le_bytes(le_value(s), s.len()) == s,
    decreases s.len(),
{
    if s.len() > 0 {
        lemma_le_bytes_of_value(s.skip(1));
        let v = le_value(s);
        let t = le_value(s.skip(1));
        assert(v == s[0] as nat + 256 * t);
        assert(v % 256 == s[0] as nat);
        assert(v / 256 == t);
        assert(le_bytes(v, s.len()) =~= seq![s[0]] + s.skip(1));
        assert(seq![s[0]] + s.skip(1) =~= s);
    }
}

/// Appends the `n` least significant bytes of `x`, least significant first.
fn push_le(out: &mut Vec<u8>, x: u64, n: usize)
    ensures
        final(out)@ == old(out)@ + le_bytes(x as nat, n as nat),
{
    let mut m: u64 = x;
    let mut k: usize = 0;
    assert(old(out)@ + le_bytes(x as nat, n as nat) =~= out@ + le_bytes(m as nat, (n - k) as nat));
    while k < n
        invariant
            k <= n,
            old(out)@ + le_bytes(x as nat, n as nat) == out@ + le_bytes(m as nat, (n - k) as nat),
        decreases n - k,
    {
        let ghost before = out@;
        out.push((m % 256) as u8);
        assert(before + le_bytes(m as nat, (n - k) as nat) =~= out@ + le_bytes(
            (m / 256) as nat,
            (n - k - 1) as nat,
        ));
        m = m / 256;
        k = k + 1;
    }
    assert(out@ + le_bytes(m as nat, 0) =~= out@);
}

/// The number encoded little-endian by `b[start..start + n]`.
fn read_le(b: &[u8], start: usize, n: usize) -> (r: u64)
    requires
        start + n <= b.len(),
        n <= 8,
    ensures
        r as nat == le_value(b@.subrange(start as int, start + n)),
{
    let mut acc: u64 = 0;
    let mut i: usize = n;
    assert(b@.subrange(start + n, start + n) =~= Seq::<u8>::empty());
    while i > 0
        invariant
            i <= n <= 8,
            start + n <= b.len(),
            acc as nat == le_value(b@.subrange(start + i, start + n)),
        decreases i,
    {
        let ghost tail = b@.subrange(start + i, start + n);
        proof {
            lemma_le_value_bound(tail);
            lemma_pow256_mono((n - i) as nat, 7);
        }
        i = i - 1;
        let ghost s = b@.subrange(start + i, start + n);
        assert(s.skip(1) =~= tail);
        assert(s[0] == b@[start + i]);
        acc = (b[start + i] as u64) + 256 * acc;
    }
    acc
}

proof fn lemma_pow256_mono(a: nat, b: nat)
    requires
        a <= b,
    ensures
        pow256(a) <= pow256(b),
        pow256(7) == 0x100000000000000,
    decreases b,
{
    reveal_with_fuel(pow256, 8);
    if a < b {
        lemma_pow256_mono(a, (b - 1) as nat);
    }
}

// ----------------------------------------------------------------------------
// The USBPcap packet header
// ----------------------------------------------------------------------------

/// The packed header that USBPcap writes before every packet.
#[derive(Debug, PartialEq, Eq, Structural, Copy, Clone)]
pub struct USBPcapPacketHeader {
    pub header_length: u16,
    pub io_packet_id: u64,
    pub usb_status: u32,
    pub urb_function: u16,
    pub info: u8,
    pub bus: u16,
    pub device: u16,
    pub endpoint: u8,
    pub transfer: u8,
    pub data_length: u32,
}

impl USBPcapPacketHeader {
    /// The 27 bytes of the packed header, every field little endian.
    pub open spec fn bytes_spec(self) -> Seq<u8> {
        le_bytes(self.header_length as nat, 2) + le_bytes(self.io_packet_id as nat, 8) + le_bytes(
            self.usb_status as nat,
            4,
        ) + le_bytes(self.urb_function as nat, 2) + le_bytes(self.info as nat, 1) + le_bytes(
            self.bus as nat,
            2,
        ) + le_bytes(self.device as nat, 2) + le_bytes(self.endpoint as nat, 1) + le_bytes(
            self.transfer as nat,
            1,
        ) + le_bytes(self.data_length as nat, 4)
    }

    /// The header that exactly 27 bytes encode.
    pub open spec fn from_bytes_spec(b: Seq<u8>) -> Option<USBPcapPacketHeader> {
        if b.len() != USBPCAP_HEADER_SIZE {
            None
        } else {
            Some(
                USBPcapPacketHeader {
                    header_length: le_value(b.subrange(0, 2)) as u16,
                    io_packet_id: le_value(b.subrange(2, 10)) as u64,
                    usb_status: le_value(b.subrange(10, 14)) as u32,
                    urb_function: le_value(b.subrange(14, 16)) as u16,
                    info: le_value(b.subrange(16, 17)) as u8,
                    bus: le_value(b.subrange(17, 19)) as u16,
                    device: le_value(b.subrange(19, 21)) as u16,
                    endpoint: le_value(b.subrange(21, 22)) as u8,
                    transfer: le_value(b.subrange(22, 23)) as u8,
                    data_length: le_value(b.subrange(23, 27)) as u32,
                },
            )
        }
    }

    /// The bytes of the packed header.
    pub fn to_bytes(&self) -> (b: Vec<u8>)
        ensures
            b@ == self.bytes_spec(),
    {
        let mut b: Vec<u8> = Vec::new();
        push_le(&mut b, self.header_length as u64, 2);
        push_le(&mut b, self.io_packet_id, 8);
        push_le(&mut b, self.usb_status as u64, 4);
        push_le(&mut b, self.urb_function as u64, 2);
        push_le(&mut b, self.info as u64, 1);
        push_le(&mut b, self.bus as u64, 2);
        push_le(&mut b, self.device as u64, 2);
        push_le(&mut b, self.endpoint as u64, 1);
        push_le(&mut b, self.transfer as u64, 1);
        push_le(&mut b, self.data_length as u64, 4);
        b
    }

    /// Reads a header from exactly 27 bytes.
    pub fn read_from_bytes(b: &[u8]) -> (r: Option<USBPcapPacketHeader>)
        ensures
            r == Self::from_bytes_spec(b@),
    {
        if b.len() != USBPCAP_HEADER_SIZE {
            return None;
        }
        proof {
            lemma_header_field_bounds(b@);
        }
        Some(
            USBPcapPacketHeader {
                header_length: read_le(b, 0, 2) as u16,
                io_packet_id: read_le(b, 2, 8),
                usb_status: read_le(b, 10, 4) as u32,
                urb_function: read_le(b, 14, 2) as u16,
                info: read_le(b, 16, 1) as u8,
                bus: read_le(b, 17, 2) as u16,
                device: read_le(b, 19, 2) as u16,
                endpoint: read_le(b, 21, 1) as u8,
                transfer: read_le(b, 22, 1) as u8,
                data_length: read_le(b, 23, 4) as u32,
            },
        )
    }
}

proof fn lemma_header_field_bounds(b: Seq<u8>)
    requires
        b.len() == USBPCAP_HEADER_SIZE,
    ensures
        le_value(b.subrange(0, 2)) < 0x10000,
        le_value(b.subrange(10, 14)) < 0x100000000,
        le_value(b.subrange(14, 16)) < 0x10000,
        le_value(b.subrange(16, 17)) < 0x100,
        le_value(b.subrange(17, 19)) < 0x10000,
        le_value(b.subrange(19, 21)) < 0x10000,
        le_value(b.subrange(21, 22)) < 0x100,
        le_value(b.subrange(22, 23)) < 0x100,
        le_value(b.subrange(23, 27)) < 0x100000000,
{
    reveal_with_fuel(pow256, 5);
    lemma_le_value_bound(b.subrange(0, 2));
    lemma_le_value_bound(b.subrange(10, 14));
    lemma_le_value_bound(b.subrange(14, 16));
    lemma_le_value_bound(b.subrange(16, 17));
    lemma_le_value_bound(b.subrange(17, 19));
    lemma_le_value_bound(b.subrange(19, 21));
    lemma_le_value_bound(b.subrange(21, 22));
    lemma_le_value_bound(b.subrange(22, 23));
    lemma_le_value_bound(b.subrange(23, 27));
}

proof fn lemma_header_pieces(h: USBPcapPacketHeader)
    ensures
        h.bytes_spec().len() == USBPCAP_HEADER_SIZE,
        h.bytes_spec().subrange(0, 2) == le_bytes(h.header_length as nat, 2),
        h.bytes_spec().subrange(2, 10) == le_bytes(h.io_packet_id as nat, 8),
        h.bytes_spec().subrange(10, 14) == le_bytes(h.usb_status as nat, 4),
        h.bytes_spec().subrange(14, 16) == le_bytes(h.urb_function as nat, 2),
        h.bytes_spec().subrange(16, 17) == le_bytes(h.info as nat, 1),
        h.bytes_spec().subrange(17, 19) == le_bytes(h.bus as nat, 2),
        h.bytes_spec().subrange(19, 21) == le_bytes(h.device as nat, 2),
        h.bytes_spec().subrange(21, 22) == le_bytes(h.endpoint as nat, 1),
        h.bytes_spec().subrange(22, 23) == le_bytes(h.transfer as nat, 1),
        h.bytes_spec().subrange(23, 27) == le_bytes(h.data_length as nat, 4),
{
    lemma_le_bytes_len(h.header_length as nat, 2);
    lemma_le_bytes_len(h.io_packet_id as nat, 8);
    lemma_le_bytes_len(h.usb_status as nat, 4);
    lemma_le_bytes_len(h.urb_function as nat, 2);
    lemma_le_bytes_len(h.info as nat, 1);
    lemma_le_bytes_len(h.bus as nat, 2);
    lemma_le_bytes_len(h.device as nat, 2);
    lemma_le_bytes_len(h.endpoint as nat, 1);
    lemma_le_bytes_len(h.transfer as nat, 1);
    lemma_le_bytes_len(h.data_length as nat, 4);
    let b = h.bytes_spec();
    assert(b.subrange(0, 2) =~= le_bytes(h.header_length as nat, 2));
    assert(b.subrange(2, 10) =~= le_bytes(h.io_packet_id as nat, 8));
    assert(b.subrange(10, 14) =~= le_bytes(h.usb_status as nat, 4));
    assert(b.subrange(14, 16) =~= le_bytes(h.urb_function as nat, 2));
    assert(b.subrange(16, 17) =~= le_bytes(h.info as nat, 1));
    assert(b.subrange(17, 19) =~= le_bytes(h.bus as nat, 2));
    assert(b.subrange(19, 21) =~= le_bytes(h.device as nat, 2));
    assert(b.subrange(21, 22) =~= le_bytes(h.endpoint as nat, 1));
    assert(b.subrange(22, 23) =~= le_bytes(h.transfer as nat, 1));
    assert(b.subrange(23, 27) =~= le_bytes(h.data_length as nat, 4));
}

/// Law: reading back the bytes of a header gives the same header.
pub proof fn lemma_header_roundtrip(h: USBPcapPacketHeader)
    ensures
        USBPcapPacketHeader::from_bytes_spec(h.bytes_spec()) == Some(h),
{
    lemma_header_pieces(h);
    reveal_with_fuel(pow256, 9);
    lemma_le_value_of_bytes(h.header_length as nat, 2);
    lemma_le_value_of_bytes(h.io_packet_id as nat, 8);
    lemma_le_value_of_bytes(h.usb_status as nat, 4);
    lemma_le_value_of_bytes(h.urb_function as nat, 2);
    lemma_le_value_of_bytes(h.info as nat, 1);
    lemma_le_value_of_bytes(h.bus as nat, 2);
    lemma_le_value_of_bytes(h.device as nat, 2);
    lemma_le_value_of_bytes(h.endpoint as nat, 1);
    lemma_le_value_of_bytes(h.transfer as nat, 1);
    lemma_le_value_of_bytes(h.data_length as nat, 4);
}

/// Law: any 27 bytes read as a header are written back unchanged.
pub proof fn lemma_header_bytes_roundtrip(b: Seq<u8>)
    requires
        b.len() == USBPCAP_HEADER_SIZE,
    ensures
        USBPcapPacketHeader::from_bytes_spec(b) matches Some(h) && h.bytes_spec() == b,
{
    lemma_header_field_bounds(b);
    reveal_with_fuel(pow256, 9);
    lemma_le_value_bound(b.subrange(2, 10));
    lemma_le_bytes_of_value(b.subrange(0, 2));
    lemma_le_bytes_of_value(b.subrange(2, 10));
    lemma_le_bytes_of_value(b.subrange(10, 14));
    lemma_le_bytes_of_value(b.subrange(14, 16));
    lemma_le_bytes_of_value(b.subrange(16, 17));
    lemma_le_bytes_of_value(b.subrange(17, 19));
    lemma_le_bytes_of_value(b.subrange(19, 21));
    lemma_le_bytes_of_value(b.subrange(21, 22));
    lemma_le_bytes_of_value(b.subrange(22, 23));
    lemma_le_bytes_of_value(b.subrange(23, 27));
    let h = USBPcapPacketHeader::from_bytes_spec(b).unwrap();
    assert(h.bytes_spec() =~= b.subrange(0, 2) + b.subrange(2, 10) + b.subrange(10, 14)
        + b.subrange(14, 16) + b.subrange(16, 17) + b.subrange(17, 19) + b.subrange(19, 21)
        + b.subrange(21, 22) + b.subrange(22, 23) + b.subrange(23, 27));
    assert(h.bytes_spec() =~= b);
}

// ----------------------------------------------------------------------------
// Capture packets for request blocks
// ----------------------------------------------------------------------------

/// The USBPcap transfer code of a transfer type.
pub open spec fn transfer_code(t: USBTransferType) -> u8 {
    match t {
        USBTransferType::Bulk => 3,
        USBTransferType::Control => 2,
        USBTransferType::Interrupt => 1,
        USBTransferType::Isochronous => 0,
    }
}

/// The USBPcap stage byte of a control stage.
pub open spec fn control_stage_code(s: USBControlStage) -> u8 {
    match s {
        USBControlStage::Setup => 0,
        USBControlStage::Data => 1,
        USBControlStage::Status => 2,
        USBControlStage::Complete => 3,
    }
}

/// The endpoint byte: the endpoint number, with the top bit set for IN transfers.
pub open spec fn endpoint_byte(urb: &USBRequestBlock) -> u8 {
    if urb.direction == USBDirection::DirectionIn {
        (urb.endpoint_number + 0x80) as u8
    } else {
        urb.endpoint_number
    }
}

/// The header written for a request block.
pub open spec fn urb_header_spec(urb: &USBRequestBlock) -> USBPcapPacketHeader {
    USBPcapPacketHeader {
        header_length: if urb.transfer_type == USBTransferType::Control {
            (USBPCAP_HEADER_SIZE + 1) as u16
        } else {
            USBPCAP_HEADER_SIZE as u16
        },
        io_packet_id: urb.index as u64,
        usb_status: 0,
        urb_function: urb.usb_function.code_spec(),
        info: if urb.direction == USBDirection::DirectionIn { 1 } else { 0 },
        bus: 0,
        device: urb.device_number as u16,
        endpoint: endpoint_byte(urb),
        transfer: transfer_code(urb.transfer_type),
        data_length: urb.data@.len() as u32,
    }
}

/// The capture packet of a request block: its header, the stage byte when the
/// block belongs to a control stage, then its data.
pub open spec fn urb_packet_spec(urb: &USBRequestBlock) -> Seq<u8> {
    urb_header_spec(urb).bytes_spec() + match urb.control_stage {
        Some(s) => seq![control_stage_code(s)],
        None => Seq::<u8>::empty(),
    } + urb.data@
}

/// A request block whose endpoint byte can be formed: IN endpoints are below 0x80.
pub open spec fn urb_encodable(urb: &USBRequestBlock) -> bool {
    urb.direction == USBDirection::DirectionIn ==> urb.endpoint_number < 0x80
}

/// The header written for a request block.
pub fn urb_header(urb: &USBRequestBlock) -> (h: USBPcapPacketHeader)
    requires
        urb_encodable(urb),
    ensures
        h == urb_header_spec(urb),
{
    let transfer: u8 = match &urb.transfer_type {
        USBTransferType::Bulk => 3,
        USBTransferType::Control => 2,
        USBTransferType::Interrupt => 1,
        USBTransferType::Isochronous => 0,
    };
    let size: usize = if urb.transfer_type == USBTransferType::Control {
        USBPCAP_HEADER_SIZE + 1
    } else {
        USBPCAP_HEADER_SIZE
    };
    let function_id: u16 = urb.usb_function.code();
    let mut endpoint: u8 = urb.endpoint_number;
    if urb.direction == USBDirection::DirectionIn {
        endpoint = endpoint + 0x80;
    }
    let info: u8 = if urb.direction == USBDirection::DirectionIn { 1 } else { 0 };
    USBPcapPacketHeader {
        header_length: size as u16,
        data_length: urb.data.len() as u32,
        transfer,
        io_packet_id: urb.index as u64,
        bus: 0,
        device: urb.device_number as u16,
        endpoint,
        usb_status: 0,
        info,
        urb_function: function_id,
    }
}

/// The bytes of the capture packet that records a request block.
pub fn urb_packet_bytes(urb: &USBRequestBlock) -> (b: Vec<u8>)
    requires
        urb_encodable(urb),
    ensures
        b@ == urb_packet_spec(urb),
{
    let header = urb_header(urb);
    let mut packet_bytes = header.to_bytes();
    let control_type: Option<u8> = match urb.control_stage {
        None => None,
        Some(USBControlStage::Data) => Some(1),
        Some(USBControlStage::Setup) => Some(0),
        Some(USBControlStage::Status) => Some(2),
        Some(USBControlStage::Complete) => Some(3),
    };
    if let Some(c) = control_type {
        packet_bytes.push(c);
    }
    let mut i: usize = 0;
    let ghost prefix = packet_bytes@;
    while i < urb.data.len()
        invariant
            i <= urb.data.len(),
            packet_bytes@ == prefix + urb.data@.subrange(0, i as int),
        decreases urb.data.len() - i,
    {
        packet_bytes.push(urb.data[i]);
        i = i + 1;
        assert(packet_bytes@ =~= prefix + urb.data@.subrange(0, i as int));
    }
    assert(urb.data@.subrange(0, urb.data.len() as int) =~= urb.data@);
    packet_bytes
}

/// Whether every request block can be written (see `urb_encodable`).
pub fn urbs_encodable(urbs: &Vec<USBRequestBlock>) -> (b: bool)
    ensures
        b == forall|i: int| 0 <= i < urbs@.len() ==> urb_encodable(#[trigger] &urbs@[i]),
{
    let mut i: usize = 0;
    while i < urbs.len()
        invariant
            i <= urbs.len(),
            forall|j: int| 0 <= j < i ==> urb_encodable(#[trigger] &urbs@[j]),
        decreases urbs.len() - i,
    {
        if urbs[i].direction == USBDirection::DirectionIn && urbs[i].endpoint_number >= 0x80 {
            assert(!urb_encodable(&urbs@[i as int]));
            return false;
        }
        i = i + 1;
    }
    true
}

/// The capture packets that record the request blocks, in order: for each, its
/// timestamp in nanoseconds and its bytes.
pub fn urb_packets(urbs: &Vec<USBRequestBlock>) -> (packets: Vec<(u64, Vec<u8>)>)
    requires
        forall|i: int| 0 <= i < urbs@.len() ==> urb_encodable(#[trigger] &urbs@[i]),
    ensures
        packets@.len() == urbs@.len(),
        forall|i: int|
            0 <= i < urbs@.len() ==> {
                &&& (#[trigger] packets@[i]).0 == urbs@[i].index_ns
                &&& packets@[i].1@ == urb_packet_spec(&urbs@[i])
            },
{
    let mut packets: Vec<(u64, Vec<u8>)> = Vec::new();
    let mut i: usize = 0;
    while i < urbs.len()
        invariant
            i <= urbs.len(),
            forall|j: int| 0 <= j < urbs@.len() ==> urb_encodable(#[trigger] &urbs@[j]),
            packets@.len() == i,
            forall|j: int|
                0 <= j < i ==> {
                    &&& (#[trigger] packets@[j]).0 == urbs@[j].index_ns
                    &&& packets@[j].1@ == urb_packet_spec(&urbs@[j])
                },
        decreases urbs.len() - i,
    {
        let urb = &urbs[i];
        packets.push((urb.index_ns, urb_packet_bytes(urb)));
        i = i + 1;
    }
    packets
}

/// Law: a request block of a control stage has one stage byte right after the
/// header: 0 for the setup stage, 1 for the data stage, 2 for the status stage
/// and 3 for completion; a block of no control stage has none.
pub proof fn lemma_urb_stage_byte(urb: &USBRequestBlock)
    ensures
        urb.control_stage == Some(USBControlStage::Setup) ==> urb_packet_spec(urb)[27] == 0,
        urb.control_stage == Some(USBControlStage::Data) ==> urb_packet_spec(urb)[27] == 1,
        urb.control_stage == Some(USBControlStage::Status) ==> urb_packet_spec(urb)[27] == 2,
        urb.control_stage == Some(USBControlStage::Complete) ==> urb_packet_spec(urb)[27] == 3,
        urb.control_stage is None ==> urb_packet_spec(urb).len() == 27 + urb.data@.len(),
{
    lemma_urb_packet_layout(urb);
    lemma_header_pieces(urb_header_spec(urb));
}

/// Law: the header of a request block's capture packet names the block's
/// request, device and endpoint: its packet id is the block's index, its device
/// the block's device, its endpoint the block's endpoint with the top bit set
/// exactly for IN transfers (`info` is 1 for them, 0 otherwise); its transfer
/// byte is 0, 1, 2 or 3 for isochronous, interrupt, control and bulk blocks;
/// and the header is one byte longer for control blocks.
pub proof fn lemma_urb_header_fields(urb: &USBRequestBlock)
    requires
        urb.endpoint_number < 0x80,
    ensures
        ({
            let h = USBPcapPacketHeader::from_bytes_spec(urb_packet_spec(urb).subrange(0, 27)).unwrap();
            &&& h.io_packet_id == urb.index
            &&& h.device == urb.device_number
            &&& h.bus == 0
            &&& h.usb_status == 0
            &&& (h.endpoint >= 0x80 <==> urb.direction == USBDirection::DirectionIn)
            &&& h.endpoint % 0x80 == urb.endpoint_number
            &&& (h.info == 1 <==> urb.direction == USBDirection::DirectionIn)
            &&& (h.info == 0 <==> urb.direction != USBDirection::DirectionIn)
            &&& (urb.transfer_type == USBTransferType::Isochronous ==> h.transfer == 0)
            &&& (urb.transfer_type == USBTransferType::Interrupt ==> h.transfer == 1)
            &&& (urb.transfer_type == USBTransferType::Control ==> h.transfer == 2)
            &&& (urb.transfer_type == USBTransferType::Bulk ==> h.transfer == 3)
            &&& h.header_length == if urb.transfer_type == USBTransferType::Control {
                28int
            } else {
                27int
            }
            &&& h.urb_function == urb.usb_function.code_spec()
        }),
{
    lemma_urb_packet_layout(urb);
}

/// Law: the header of a request block's capture packet counts the block's data:
/// its `data_length` is the number of bytes that follow the header and the
/// stage byte, and those bytes are the block's data.
pub proof fn lemma_urb_header_counts_data(urb: &USBRequestBlock)
    ensures
        ({
            let p = urb_packet_spec(urb);
            let stage: int = if urb.control_stage is Some {
                1
            } else {
                0
            };
            &&& USBPcapPacketHeader::from_bytes_spec(p.subrange(0, 27)) matches Some(h) && h.data_length
                == (p.len() - 27 - stage) as u32
            &&& p.subrange(27 + stage, p.len() as int) == urb.data@
        }),
{
    lemma_urb_packet_layout(urb);
    let p = urb_packet_spec(urb);
    let stage: int = if urb.control_stage is Some {
        1
    } else {
        0
    };
    assert(p.subrange(27 + stage, p.len() as int) =~= p.skip(p.len() - urb.data@.len()));
}

/// Law: the header at the start of a request block's capture packet reads back as
/// the block's header, and the packet is as long as the header, the stage byte and
/// the data together.
pub proof fn lemma_urb_packet_layout(urb: &USBRequestBlock)
    ensures
        USBPcapPacketHeader::from_bytes_spec(urb_packet_spec(urb).subrange(0, 27)) == Some(
            urb_header_spec(urb),
        ),
        urb_packet_spec(urb).len() == USBPCAP_HEADER_SIZE + (if urb.control_stage is Some {
            1int
        } else {
            0int
        }) + urb.data@.len(),
        urb_packet_spec(urb).skip(urb_packet_spec(urb).len() - urb.data@.len()) == urb.data@,
{
    let h = urb_header_spec(urb);
    lemma_header_pieces(h);
    lemma_header_roundtrip(h);
    let p = urb_packet_spec(urb);
    assert(p.subrange(0, 27) =~= h.bytes_spec());
    assert(p.skip(p.len() - urb.data@.len()) =~= urb.data@);
}

} // verus!
