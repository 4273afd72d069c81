//! Device discovery from captured USBPcap packets: every SET_ADDRESS control
//! request on endpoint 0 announces a device.
#![allow(dead_code)]

use crate::pcap_writer::{USBPcapPacketHeader, USBPCAP_HEADER_SIZE};
use crate::usb_request_block::{
    USBConfiguration, USBControlRequest, USBControlRequestType, USBInterface,
};
use std::collections::HashMap;
use vstd::prelude::*;

verus! {

broadcast use vstd::std_specs::hash::group_hash_axioms;

struct Packet {
    data: Vec<u8>,
}

trait InterfaceExpert {

}

struct Endpoint {
    endpoint_id: u8,
    packets: Vec<Packet>,
}

struct Interface {
    descriptor: USBInterface,
    endpoints: HashMap<u8, Endpoint>,
    expert: Option<Box<dyn InterfaceExpert>>,
}

struct Configuration {
    descriptor: USBConfiguration,
    expert: Option<Box<dyn InterfaceExpert>>,
    interfaces: HashMap<u8, Interface>,
}

pub struct Device {
    device_id: u8,
    current_configuration: u8,
    configurations: HashMap<u8, Configuration>,
    strings: HashMap<u8, HashMap<u8, String>>,
}

impl Device {
    /// A device just announced at address `id`: nothing configured yet.
    pub closed spec fn is_new_at(self, id: u8) -> bool {
        &&& self.device_id == id
        &&& self.current_configuration == 0
        &&& self.configurations@.len() == 0
        &&& self.strings@.len() == 0
    }
}

/// The header of a captured packet: its first 27 bytes.
pub open spec fn packet_header(p: Seq<u8>) -> USBPcapPacketHeader {
    USBPcapPacketHeader::from_bytes_spec(p.subrange(0, USBPCAP_HEADER_SIZE as int)).unwrap()
}

/// A packet of a control transfer on endpoint 0.
pub open spec fn is_control_packet(p: Seq<u8>) -> bool {
    packet_header(p).endpoint == 0 && packet_header(p).transfer == 0x02
}

/// The setup request that a control packet carries after its header and stage byte.
pub open spec fn packet_request(p: Seq<u8>) -> Option<USBControlRequest> {
    USBControlRequest::from_bytes_spec(p.skip(USBPCAP_HEADER_SIZE + 1))
}

/// A packet that device discovery can read: it holds a whole header, and when it
/// is a control packet, a stage byte and a valid eight-byte setup request follow.
pub open spec fn packet_readable(p: Seq<u8>) -> bool {
    &&& p.len() >= USBPCAP_HEADER_SIZE
    &&& is_control_packet(p) ==> {
        &&& p.len() >= USBPCAP_HEADER_SIZE + 1
        &&& packet_request(p) is Some
    }
}

/// The device address that a packet assigns with SET_ADDRESS, if it does.
pub open spec fn assigned_address(p: Seq<u8>) -> Option<u8> {
    if !is_control_packet(p) {
        None
    } else {
        match packet_request(p) {
            Some(r) => if r.request_type == USBControlRequestType::UsbReqSetAddress {
                Some(r.value as u8)
            } else {
                None
            },
            None => None,
        }
    }
}

/// How many of the packets assign address `id`.
pub open spec fn address_count(packets: Seq<Seq<u8>>, id: u8) -> nat
    decreases packets.len(),
{
    if packets.len() == 0 {
        0
    } else {
        address_count(packets.drop_last(), id) + if assigned_address(packets.last()) == Some(id) {
            1nat
        } else {
            0nat
        }
    }
}

pub open spec fn packets_view(packets: Seq<Vec<u8>>) -> Seq<Seq<u8>> {
    packets.map_values(|p: Vec<u8>| p@)
}

/// The setup request of a control packet on endpoint 0, or nothing for any
/// other packet.
pub fn control_request(packet: &[u8]) -> (r: Option<USBControlRequest>)
    requires
        packet_readable(packet@),
    ensures
        r == (if is_control_packet(packet@) {
            packet_request(packet@)
        } else {
            None
        }),
{
    let header_bytes = slice_range(packet, 0, USBPCAP_HEADER_SIZE);
    let header = USBPcapPacketHeader::read_from_bytes(header_bytes.as_slice()).unwrap();
    if header.endpoint == 0 && header.transfer == 0x02 {
        let rest = slice_range(packet, USBPCAP_HEADER_SIZE + 1, packet.len());
        assert(rest@ =~= packet@.skip(USBPCAP_HEADER_SIZE + 1));
        USBControlRequest::try_from_bytes(rest.as_slice())
    } else {
        None
    }
}

/// Whether device discovery can read a packet (see `packet_readable`).
pub fn packet_is_readable(packet: &[u8]) -> (b: bool)
    ensures
        b == packet_readable(packet@),
{
    if packet.len() < USBPCAP_HEADER_SIZE {
        return false;
    }
    let header_bytes = slice_range(packet, 0, USBPCAP_HEADER_SIZE);
    let header = USBPcapPacketHeader::read_from_bytes(header_bytes.as_slice()).unwrap();
    if header.endpoint == 0 && header.transfer == 0x02 {
        if packet.len() < USBPCAP_HEADER_SIZE + 1 {
            return false;
        }
        let rest = slice_range(packet, USBPCAP_HEADER_SIZE + 1, packet.len());
        assert(rest@ =~= packet@.skip(USBPCAP_HEADER_SIZE + 1));
        USBControlRequest::try_from_bytes(rest.as_slice()).is_some()
    } else {
        true
    }
}

/// The bytes `b[from..to]`.
fn slice_range(b: &[u8], from: usize, to: usize) -> (r: Vec<u8>)
    requires
        from <= to <= b.len(),
    ensures
        r@ == b@.subrange(from as int, to as int),
{
    let mut r: Vec<u8> = Vec::new();
    let mut i: usize = from;
    while i < to
        invariant
            from <= i <= to <= b.len(),
            r@ == b@.subrange(from as int, i as int),
        decreases to - i,
    {
        r.push(b[i]);
        i = i + 1;
        assert(r@ =~= b@.subrange(from as int, i as int));
    }
    r
}

fn new_device(device_id: u8) -> (d: Device)
    ensures
        d.is_new_at(device_id),
{
    Device {
        device_id,
        configurations: HashMap::new(),
        strings: HashMap::new(),
        current_configuration: 0,
    }
}

/// The devices announced in a capture: for every address that SET_ADDRESS
/// requests assign, one new device per such request, in capture order.
pub fn parse_devices(packets: Vec<Vec<u8>>) -> (devices: HashMap<u8, Vec<Device>>)
    requires
        forall|i: int| 0 <= i < packets.len() ==> packet_readable(#[trigger] packets@[i]@),
    ensures
        forall|id: u8|
            #![trigger devices@.contains_key(id)]
            devices@.contains_key(id) <==> address_count(packets_view(packets@), id) > 0,
        forall|id: u8|
            #![trigger devices@[id]]
            devices@.contains_key(id) ==> {
                &&& devices@[id]@.len() == address_count(packets_view(packets@), id)
                &&& forall|k: int|
                    0 <= k < devices@[id]@.len() ==> (#[trigger] devices@[id]@[k]).is_new_at(id)
            },
{
    let mut devices = HashMap::<u8, Vec<Device>>::new();
    let ghost all = packets_view(packets@);
    let mut i: usize = 0;
    while i < packets.len()
        invariant
            i <= packets.len(),
            all == packets_view(packets@),
            forall|j: int| 0 <= j < packets.len() ==> packet_readable(#[trigger] packets@[j]@),
            forall|id: u8|
                #![trigger devices@.contains_key(id)]
                devices@.contains_key(id) <==> address_count(all.take(i as int), id) > 0,
            forall|id: u8|
                #![trigger devices@[id]]
                devices@.contains_key(id) ==> {
                    &&& devices@[id]@.len() == address_count(all.take(i as int), id)
                    &&& forall|k: int|
                        0 <= k < devices@[id]@.len() ==> (#[trigger] devices@[id]@[k]).is_new_at(
                            id,
                        )
                },
        decreases packets.len() - i,
    {
        let raw_packet = &packets[i];
        assert(all.take(i + 1).drop_last() =~= all.take(i as int));
        assert(all.take(i + 1).last() == raw_packet@);
        assert forall|id: u8|
            #[trigger] address_count(all.take(i + 1), id) == address_count(all.take(i as int), id)
                + if assigned_address(raw_packet@) == Some(id) {
                1nat
            } else {
                0nat
            } by {
            assert(all.take(i + 1).drop_last() =~= all.take(i as int));
        }
        let request = control_request(raw_packet.as_slice());
        let is_set_address = match &request {
            Some(header) => header.request_type == USBControlRequestType::UsbReqSetAddress,
            None => false,
        };
        if is_set_address {
            let header = request.unwrap();
            let device_id = header.value as u8;
            assert(assigned_address(raw_packet@) == Some(device_id));
            let ghost before = devices@;
            assert(forall|id: u8|
                #![trigger before.contains_key(id)]
                before.contains_key(id) <==> address_count(all.take(i as int), id) > 0);
            let mut list: Vec<Device> = match devices.remove(&device_id) {
                Some(v) => v,
                None => Vec::new(),
            };
            let ghost old_list = list@;
            list.push(new_device(device_id));
            devices.insert(device_id, list);
            assert forall|id: u8| #![trigger devices@.contains_key(id)]
                address_count(all.take(i + 1), id) > 0 implies devices@.contains_key(id) by {
                if id != device_id {
                    assert(address_count(all.take(i + 1), id) == address_count(
                        all.take(i as int),
                        id,
                    ));
                    assert(before.contains_key(id));
                }
            }
            assert forall|id: u8| #![trigger devices@[id]]
                devices@.contains_key(id) implies {
                    &&& devices@[id]@.len() == address_count(all.take(i + 1), id)
                    &&& forall|k: int|
                        0 <= k < devices@[id]@.len() ==> (#[trigger] devices@[id]@[k]).is_new_at(
                            id,
                        )
                } by {
                if id == device_id {
                    if before.contains_key(id) {
                        assert(old_list == before[id]@);
                    } else {
                        assert(address_count(all.take(i as int), id) == 0);
                        assert(old_list.len() == 0);
                    }
                    assert forall|k: int| 0 <= k < devices@[id]@.len() implies (
                    #[trigger] devices@[id]@[k]).is_new_at(id) by {
                        if k < old_list.len() {
                            assert(devices@[id]@[k] == old_list[k]);
                            assert(before[id]@[k] == old_list[k]);
                        }
                    }
                } else {
                    assert(devices@[id] == before[id]);
                }
            }
        } else {
            assert(assigned_address(raw_packet@) is None);
        }
        i = i + 1;
    }
    assert(all.take(packets.len() as int) =~= all);
    devices
}

} // verus!
