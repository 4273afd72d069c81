//! USB data model: directions, speeds, transfer kinds, descriptors and the
//! USB request block (URB) that the capture readers produce and the pcap
//! encoder consumes.
#![allow(dead_code)]

use std::collections::HashMap;
use vstd::prelude::*;

verus! {

#[derive(Debug, PartialEq, Eq, Structural, Copy, Clone)]
pub enum USBDirection {
    DirectionNone,
    DirectionIn,
    DirectionOut,
}

#[derive(Debug, PartialEq, Eq, Structural, Copy, Clone)]
pub enum USBClassCode {
    PerInterface,
    Audio,
    Communications,
    HumanInterfaceDevice,
    Physical,
    Image,
    Printer,
    MassStorage,
    Hub,
    Data,
    SmartCard,
    ContentSecurity,
    Video,
    PersonalHealthcare,
    DiagnosticDevice,
    Wireless,
    Miscellaneous,
    Application,
    VendorSpecific,
}

impl USBClassCode {
    /// The class code byte of the USB specification.
    pub open spec fn code_spec(self) -> u8 {
        match self {
            USBClassCode::PerInterface => 0x00,
            USBClassCode::Audio => 0x01,
            USBClassCode::Communications => 0x02,
            USBClassCode::HumanInterfaceDevice => 0x03,
            USBClassCode::Physical => 0x05,
            USBClassCode::Image => 0x06,
            USBClassCode::Printer => 0x07,
            USBClassCode::MassStorage => 0x08,
            USBClassCode::Hub => 0x09,
            USBClassCode::Data => 0x0a,
            USBClassCode::SmartCard => 0x0b,
            USBClassCode::ContentSecurity => 0x0d,
            USBClassCode::Video => 0x0e,
            USBClassCode::PersonalHealthcare => 0x0f,
            USBClassCode::DiagnosticDevice => 0xdc,
            USBClassCode::Wireless => 0xe0,
            USBClassCode::Miscellaneous => 0xef,
            USBClassCode::Application => 0xfe,
            USBClassCode::VendorSpecific => 0xff,
        }
    }

    /// The class code byte of the USB specification.
    pub fn code(&self) -> (c: u8)
        ensures
            c == self.code_spec(),
    {
        match self {
            USBClassCode::PerInterface => 0x00,
            USBClassCode::Audio => 0x01,
            USBClassCode::Communications => 0x02,
            USBClassCode::HumanInterfaceDevice => 0x03,
            USBClassCode::Physical => 0x05,
            USBClassCode::Image => 0x06,
            USBClassCode::Printer => 0x07,
            USBClassCode::MassStorage => 0x08,
            USBClassCode::Hub => 0x09,
            USBClassCode::Data => 0x0a,
            USBClassCode::SmartCard => 0x0b,
            USBClassCode::ContentSecurity => 0x0d,
            USBClassCode::Video => 0x0e,
            USBClassCode::PersonalHealthcare => 0x0f,
            USBClassCode::DiagnosticDevice => 0xdc,
            USBClassCode::Wireless => 0xe0,
            USBClassCode::Miscellaneous => 0xef,
            USBClassCode::Application => 0xfe,
            USBClassCode::VendorSpecific => 0xff,
        }
    }
}

#[derive(Debug, PartialEq, Eq, Structural, Copy, Clone)]
pub enum USBDescriptorType {
    Device,
    Configuration,
    String,
    Interface,
    Endpoint,
    InterfaceAssociation,
    BOS,
    DeviceCapability,
    HID,
    Report,
    Physical,
    Hub,
    SuperspeedHub,
    SuperSpeedEndpointCompanion,
}

impl USBDescriptorType {
    /// The `bDescriptorType` byte of the USB specification.
    pub open spec fn code_spec(self) -> u8 {
        match self {
            USBDescriptorType::Device => 0x01,
            USBDescriptorType::Configuration => 0x02,
            USBDescriptorType::String => 0x03,
            USBDescriptorType::Interface => 0x04,
            USBDescriptorType::Endpoint => 0x05,
            USBDescriptorType::InterfaceAssociation => 0x0b,
            USBDescriptorType::BOS => 0x0f,
            USBDescriptorType::DeviceCapability => 0x10,
            USBDescriptorType::HID => 0x21,
            USBDescriptorType::Report => 0x22,
            USBDescriptorType::Physical => 0x23,
            USBDescriptorType::Hub => 0x29,
            USBDescriptorType::SuperspeedHub => 0x2a,
            USBDescriptorType::SuperSpeedEndpointCompanion => 0x30,
        }
    }

    /// The `bDescriptorType` byte of the USB specification.
    pub fn code(&self) -> (c: u8)
        ensures
            c == self.code_spec(),
    {
        match self {
            USBDescriptorType::Device => 0x01,
            USBDescriptorType::Configuration => 0x02,
            USBDescriptorType::String => 0x03,
            USBDescriptorType::Interface => 0x04,
            USBDescriptorType::Endpoint => 0x05,
            USBDescriptorType::InterfaceAssociation => 0x0b,
            USBDescriptorType::BOS => 0x0f,
            USBDescriptorType::DeviceCapability => 0x10,
            USBDescriptorType::HID => 0x21,
            USBDescriptorType::Report => 0x22,
            USBDescriptorType::Physical => 0x23,
            USBDescriptorType::Hub => 0x29,
            USBDescriptorType::SuperspeedHub => 0x2a,
            USBDescriptorType::SuperSpeedEndpointCompanion => 0x30,
        }
    }
}

/// Law: distinct device classes have distinct class codes, and distinct
/// descriptor types distinct `bDescriptorType` codes; HID is class 0x03, hubs
/// 0x09, vendor-specific 0xff; device descriptors are type 0x01, configuration
/// 0x02, string 0x03, interface 0x04 and endpoint 0x05.
pub proof fn lemma_class_and_descriptor_codes(
    a: USBClassCode,
    b: USBClassCode,
    c: USBDescriptorType,
    d: USBDescriptorType,
)
    ensures
        a.code_spec() == b.code_spec() ==> a == b,
        c.code_spec() == d.code_spec() ==> c == d,
        USBClassCode::HumanInterfaceDevice.code_spec() == 0x03,
        USBClassCode::Hub.code_spec() == 0x09,
        USBClassCode::VendorSpecific.code_spec() == 0xff,
        USBDescriptorType::Device.code_spec() == 0x01,
        USBDescriptorType::Configuration.code_spec() == 0x02,
        USBDescriptorType::String.code_spec() == 0x03,
        USBDescriptorType::Interface.code_spec() == 0x04,
        USBDescriptorType::Endpoint.code_spec() == 0x05,
{
}

pub enum USBDescriptor {
    Device(USBDeviceDescriptor),
    Configuration(USBConfigDescriptor),
    String(String),
    Interface(InterfaceDescriptor),
    Endpoint(EndpointDescriptor),
    InterfaceAssociation(InterfaceAssociationDescriptor),
    BOS(BinaryObjectStoreDescriptor),
    DeviceCapability(BosDevCapabilityDescriptor),
    HID(u8),
    Report(u8),
}

/// The kinds of binary object store capabilities (codes 1 to 4 in that order).
pub enum USBBinaryObjectStoreType {
    LibusbBtWirelessUsbDeviceCapability,
    LibusbBtUsb20Extension,
    LibusbBtSsUsbDeviceCapability,
    LibusbBtContainerId,
}

const DEVICE_SIZE: u8 = 18;
const CONFIG_SIZE: u8 = 9;
const INTERFACE_SIZE: u8 = 9;
const ENDPOINT_SIZE: u8 = 7;
const ENDPOINT_AUDIO_SIZE: u8 = 9;
const HUB_NONVAR_SIZE: u8 = 7;
const SS_ENDPOINT_COMPANION_SIZE: u8 = 6;
const BOS_SIZE: u8 = 5;
const DEVICE_CAPABILITY_SIZE: u8 = 3;
const INTERFACE_ASSOCIATION_SIZE: u8 = 8;

// binary object store descriptor sizes
const BT_USB_2_0_EXTENSION_SIZE: u8 = 7;
const BT_SS_USB_DEVICE_CAPABILITY_SIZE: u8 = 10;
const BT_SSPLUS_USB_DEVICE_CAPABILITY_SIZE: u8 = 12;
const BT_CONTAINER_ID_SIZE: u8 = 20;
const BT_PLATFORM_DESCRIPTOR_MIN_SIZE: u8 = 20;

const ENDPOINT_ADDRESS_MASK: u8 = 0x0f;
const ENDPOINT_DIR_MASK: u8 = 0x80;

#[derive(Debug, PartialEq, Eq, Structural, Copy, Clone)]
pub enum USBSpeed {
    SpeedUnknown,
    SpeedLow,
    SpeedFull,
    SpeedHigh,
    SpeedSuper,
}

const USB_ENDPOINT_IN_MASK: u8 = 0x80;
const USB_ENDPOINT_OUT_MASK: u8 = 0x80;
const USB_ENDPOINT_ID: u8 = 0x7F;

const APPLE_VID: u16 = 0x05ac;
const USB_CLASS_APPLICATION_SPECIFIC: u8 = 0xFF;
const USB_SUBCLASS_DFU: u8 = 0x01;
const APPLE_SUBCLASS_USBMUX: u8 = 0xFE;
const APPLE_PROTOCOL_USBMUX2: u8 = 0x02;

const TRANSFER_TYPE_MASK: u8 = 0x03;

enum URBRecordType {
    OutTransaction,
    OutPacket,
    Data0Packet,
    Data1Packet,
    AckPacket,
    NyetPacket,
    PingPacket,
    PingAck,
}

// Apple product identifiers
const APPLE_RECOVERY_MODE_1: u16 = 0x1280;
const APPLE_RECOVERY_MODE_2: u16 = 0x1281;
const APPLE_RECOVERY_MODE_3: u16 = 0x1282;
const APPLE_RECOVERY_MODE_4: u16 = 0x1283;
const APPLE_WHERES_THE_FIRMWARE_MODE: u16 = 0x1222;
const APPLE_DEVICE_FIRMWARE_UPDATE_MODE: u16 = 0x1227;
const APPLE_DEBUG_USB: u16 = 0x1881;

/// Endpoint attribute bits (transfer type, synchronisation and usage).
#[derive(Debug, Clone, Copy, PartialEq, Eq, Structural, Hash)]
pub struct USBAttributes {
    pub bits: u8,
}

impl USBAttributes {
    pub const CONTROL: u8 = 0x00;
    pub const ISOCHRONOUS: u8 = 0x01;
    pub const BULK: u8 = 0x02;
    pub const INTERRUPT: u8 = 0x03;
    pub const NO_SYNCHONISATION: u8 = 0x00;
    pub const ASYNCHRONOUS: u8 = 0x04;
    pub const ADAPTIVE: u8 = 0x05;
    pub const SYNCHRONOUS: u8 = 0x06;
    pub const DATA_ENDPOINT: u8 = 0x00;
    pub const FEEDBACK_ENDPOINT: u8 = 0x07;
    pub const EXPLICIT_FEEDBACK_DATA_ENDPOINT: u8 = 0x08;
}

pub struct USBSetAddress {
    device_id: u8,
}

pub struct USBGetDeviceDescriptor {
    device_id: u8,
    index: u8,
}

/// How the data of a request block travels on the bus.
#[derive(Debug, PartialEq, Eq, Structural, Copy, Clone)]
pub enum USBTransferType {
    Isochronous,
    Interrupt,
    Control,
    Bulk,
}

/// The stage of a control transfer a request block belongs to.
#[derive(Debug, PartialEq, Eq, Structural, Copy, Clone)]
pub enum USBControlStage {
    Setup,
    Data,
    Status,
    Complete,
}

/// The URB function of a request block, as USBPcap records it.
#[derive(Debug, PartialEq, Eq, Structural, Copy, Clone)]
pub enum USBFunction {
    SelectConfiguration,
    ControlTransfer,
    BulkOrInterruptTransfer,
    GetDescriptorFromDevice,
    GetConfiguration,
    ControlTransferEx,
    Unknown,
}

impl USBFunction {
    /// The numeric URB function code written into USBPcap headers.
    pub open spec fn code_spec(self) -> u16 {
        match self {
            USBFunction::SelectConfiguration => 0x0000,
            USBFunction::ControlTransfer => 0x0008,
            USBFunction::BulkOrInterruptTransfer => 0x0009,
            USBFunction::GetDescriptorFromDevice => 0x000b,
            USBFunction::GetConfiguration => 0x0026,
            USBFunction::ControlTransferEx => 0x0032,
            USBFunction::Unknown => 0xffff,
        }
    }

    /// The numeric URB function code written into USBPcap headers.
    pub fn code(&self) -> (c: u16)
        ensures
            c == self.code_spec(),
    {
        match self {
            USBFunction::SelectConfiguration => 0x0000,
            USBFunction::ControlTransfer => 0x0008,
            USBFunction::BulkOrInterruptTransfer => 0x0009,
            USBFunction::GetDescriptorFromDevice => 0x000b,
            USBFunction::GetConfiguration => 0x0026,
            USBFunction::ControlTransferEx => 0x0032,
            USBFunction::Unknown => 0xffff,
        }
    }
}

/// The `bRequest` codes of the standard USB requests.
#[derive(Debug, PartialEq, Eq, Structural, Copy, Clone)]
pub enum USBControlRequestType {
    UsbReqGetStatus,
    UsbReqClearFeature,
    UsbReqSetFeature,
    UsbReqSetAddress,
    UsbReqGetDescriptor,
    UsbReqSetDescriptor,
    UsbReqGetConfiguration,
    UsbReqSetConfiguration,
    UsbReqGetInterface,
    UsbReqSetInterface,
    UsbReqSynchFrame,
    UsbReqSetSel,
    UsbReqSetIsochDelay,
}

impl USBControlRequestType {
    /// The request that a `bRequest` byte names, if it names one.
    pub open spec fn from_code_spec(code: u8) -> Option<USBControlRequestType> {
        if code == 0x00 {
            Some(USBControlRequestType::UsbReqGetStatus)
        } else if code == 0x01 {
            Some(USBControlRequestType::UsbReqClearFeature)
        } else if code == 0x03 {
            Some(USBControlRequestType::UsbReqSetFeature)
        } else if code == 0x05 {
            Some(USBControlRequestType::UsbReqSetAddress)
        } else if code == 0x06 {
            Some(USBControlRequestType::UsbReqGetDescriptor)
        } else if code == 0x07 {
            Some(USBControlRequestType::UsbReqSetDescriptor)
        } else if code == 0x08 {
            Some(USBControlRequestType::UsbReqGetConfiguration)
        } else if code == 0x09 {
            Some(USBControlRequestType::UsbReqSetConfiguration)
        } else if code == 0x0a {
            Some(USBControlRequestType::UsbReqGetInterface)
        } else if code == 0x0b {
            Some(USBControlRequestType::UsbReqSetInterface)
        } else if code == 0x0c {
            Some(USBControlRequestType::UsbReqSynchFrame)
        } else if code == 0x30 {
            Some(USBControlRequestType::UsbReqSetSel)
        } else if code == 0x31 {
            Some(USBControlRequestType::UsbReqSetIsochDelay)
        } else {
            None
        }
    }

    /// The request that a `bRequest` byte names, if it names one.
    pub fn from_code(code: u8) -> (r: Option<USBControlRequestType>)
        ensures
            r == Self::from_code_spec(code),
    {
        if code == 0x00 {
            Some(USBControlRequestType::UsbReqGetStatus)
        } else if code == 0x01 {
            Some(USBControlRequestType::UsbReqClearFeature)
        } else if code == 0x03 {
            Some(USBControlRequestType::UsbReqSetFeature)
        } else if code == 0x05 {
            Some(USBControlRequestType::UsbReqSetAddress)
        } else if code == 0x06 {
            Some(USBControlRequestType::UsbReqGetDescriptor)
        } else if code == 0x07 {
            Some(USBControlRequestType::UsbReqSetDescriptor)
        } else if code == 0x08 {
            Some(USBControlRequestType::UsbReqGetConfiguration)
        } else if code == 0x09 {
            Some(USBControlRequestType::UsbReqSetConfiguration)
        } else if code == 0x0a {
            Some(USBControlRequestType::UsbReqGetInterface)
        } else if code == 0x0b {
            Some(USBControlRequestType::UsbReqSetInterface)
        } else if code == 0x0c {
            Some(USBControlRequestType::UsbReqSynchFrame)
        } else if code == 0x30 {
            Some(USBControlRequestType::UsbReqSetSel)
        } else if code == 0x31 {
            Some(USBControlRequestType::UsbReqSetIsochDelay)
        } else {
            None
        }
    }
}

/// Law: the `bRequest` codes of the standard requests are GET_STATUS 0,
/// CLEAR_FEATURE 1, SET_FEATURE 3, SET_ADDRESS 5, GET_DESCRIPTOR 6,
/// SET_DESCRIPTOR 7, GET_CONFIGURATION 8, SET_CONFIGURATION 9, GET_INTERFACE
/// 10, SET_INTERFACE 11, SYNCH_FRAME 12, SET_SEL 48 and SET_ISOCH_DELAY 49;
/// no other code names a request.
pub proof fn lemma_request_codes(code: u8)
    ensures
        USBControlRequestType::from_code_spec(0) == Some(USBControlRequestType::UsbReqGetStatus),
        USBControlRequestType::from_code_spec(1) == Some(USBControlRequestType::UsbReqClearFeature),
        USBControlRequestType::from_code_spec(3) == Some(USBControlRequestType::UsbReqSetFeature),
        USBControlRequestType::from_code_spec(5) == Some(USBControlRequestType::UsbReqSetAddress),
        USBControlRequestType::from_code_spec(6) == Some(USBControlRequestType::UsbReqGetDescriptor),
        USBControlRequestType::from_code_spec(7) == Some(USBControlRequestType::UsbReqSetDescriptor),
        USBControlRequestType::from_code_spec(8) == Some(
            USBControlRequestType::UsbReqGetConfiguration,
        ),
        USBControlRequestType::from_code_spec(9) == Some(
            USBControlRequestType::UsbReqSetConfiguration,
        ),
        USBControlRequestType::from_code_spec(10) == Some(USBControlRequestType::UsbReqGetInterface),
        USBControlRequestType::from_code_spec(11) == Some(USBControlRequestType::UsbReqSetInterface),
        USBControlRequestType::from_code_spec(12) == Some(USBControlRequestType::UsbReqSynchFrame),
        USBControlRequestType::from_code_spec(48) == Some(USBControlRequestType::UsbReqSetSel),
        USBControlRequestType::from_code_spec(49) == Some(
            USBControlRequestType::UsbReqSetIsochDelay,
        ),
        USBControlRequestType::from_code_spec(code) is Some ==> (code <= 12 && code != 2 && code
            != 4) || code == 48 || code == 49,
{
}

/// Law: the URB function codes written into USBPcap headers are
/// SELECT_CONFIGURATION 0x0000, CONTROL_TRANSFER 0x0008,
/// BULK_OR_INTERRUPT_TRANSFER 0x0009, GET_DESCRIPTOR_FROM_DEVICE 0x000B,
/// GET_CONFIGURATION 0x0026 and CONTROL_TRANSFER_EX 0x0032, and distinct
/// functions have distinct codes.
pub proof fn lemma_function_codes(f: USBFunction, g: USBFunction)
    ensures
        USBFunction::SelectConfiguration.code_spec() == 0x0000,
        USBFunction::ControlTransfer.code_spec() == 0x0008,
        USBFunction::BulkOrInterruptTransfer.code_spec() == 0x0009,
        USBFunction::GetDescriptorFromDevice.code_spec() == 0x000b,
        USBFunction::GetConfiguration.code_spec() == 0x0026,
        USBFunction::ControlTransferEx.code_spec() == 0x0032,
        f.code_spec() == g.code_spec() ==> f == g,
{
}

/// An eight-byte control setup packet (`bmRequestType`, `bRequest`, `wValue`,
/// `wIndex`, `wLength`, little endian).
#[derive(Debug, PartialEq, Eq, Structural, Copy, Clone)]
pub struct USBControlRequest {
    pub request_kind: u8,
    pub request_type: USBControlRequestType,
    pub value: u16,
    pub index: u16,
    pub length: u16,
}

impl USBControlRequest {
    /// The setup packet that `b` encodes: exactly eight bytes whose second byte
    /// names a standard request.
    pub open spec fn from_bytes_spec(b: Seq<u8>) -> Option<USBControlRequest> {
        if b.len() != 8 {
            None
        } else {
            match USBControlRequestType::from_code_spec(b[1]) {
                Some(t) => Some(
                    USBControlRequest {
                        request_kind: b[0],
                        request_type: t,
                        value: (b[2] + 256 * b[3]) as u16,
                        index: (b[4] + 256 * b[5]) as u16,
                        length: (b[6] + 256 * b[7]) as u16,
                    },
                ),
                None => None,
            }
        }
    }

    /// Reads a setup packet from exactly eight bytes.
    pub fn try_from_bytes(b: &[u8]) -> (r: Option<USBControlRequest>)
        ensures
            r == Self::from_bytes_spec(b@),
    {
        if b.len() != 8 {
            return None;
        }
        match USBControlRequestType::from_code(b[1]) {
            Some(t) => Some(
                USBControlRequest {
                    request_kind: b[0],
                    request_type: t,
                    value: (b[2] as u16) + 256 * (b[3] as u16),
                    index: (b[4] as u16) + 256 * (b[5] as u16),
                    length: (b[6] as u16) + 256 * (b[7] as u16),
                },
            ),
            None => None,
        }
    }
}

/// One transfer on the bus, ready to be written to a capture file.
#[derive(Debug)]
pub struct USBRequestBlock {
    pub direction: USBDirection,
    pub speed: USBSpeed,
    pub device_number: u8,
    pub endpoint_number: u8,
    pub index: u32,
    pub index_ns: u64,
    pub duration_ns: u64,
    pub data: Vec<u8>,
    pub transfer_type: USBTransferType,
    pub control_stage: Option<USBControlStage>,
    pub usb_function: USBFunction,
}

/// What a request block holds, as plain values.
pub struct UrbModel {
    pub direction: USBDirection,
    pub speed: USBSpeed,
    pub device_number: u8,
    pub endpoint_number: u8,
    pub index: u32,
    pub index_ns: u64,
    pub duration_ns: u64,
    pub data: Seq<u8>,
    pub transfer_type: USBTransferType,
    pub control_stage: Option<USBControlStage>,
    pub usb_function: USBFunction,
}

impl View for USBRequestBlock {
    type V = UrbModel;

    open spec fn view(&self) -> UrbModel {
        UrbModel {
            direction: self.direction,
            speed: self.speed,
            device_number: self.device_number,
            endpoint_number: self.endpoint_number,
            index: self.index,
            index_ns: self.index_ns,
            duration_ns: self.duration_ns,
            data: self.data@,
            transfer_type: self.transfer_type,
            control_stage: self.control_stage,
            usb_function: self.usb_function,
        }
    }
}

impl USBRequestBlock {
    /// A block addressed to the default address 0, before the host assigned one.
    pub fn is_unconfigured(&self) -> (b: bool)
        ensures
            b == (self.device_number == 0),
    {
        self.device_number == 0
    }

    /// A block on the control endpoint 0.
    pub fn is_control(&self) -> (b: bool)
        ensures
            b == (self.endpoint_number == 0),
    {
        self.endpoint_number == 0
    }
}

#[verifier::external_type_specification]
#[verifier::external_body]
pub struct ExUuid(uuid::Uuid);

pub struct USBDevice {
    global_id: uuid::Uuid,
    local_device_id: u8,
    configurations: HashMap<u8, USBConfiguration>,
    endpoints: HashMap<u8, USBEndpoint>,
}

pub struct USBConfiguration {
    interfaces: HashMap<u8, USBInterface>,
}

pub struct USBInterface {
    configuration_id: u8,
    input_id: u8,
    output_id: u8,
}

pub struct USBEndpoint {
    endpoint_id: u8,
    direction: USBDirection,
    urbs: Vec<USBRequestBlock>,
}

pub struct USBDeviceDescriptor {
    length: u8,
    descriptor_type: USBDescriptorType,
    bcd_usb: u16,
    device_class: USBClassCode,
    device_sub_class: u8,
    device_protocol: u8,
    max_packet_size: u8,
    vendor_id: u16,
    product_id: u16,
    bcd_device: u16,
    index_manufacturer: u8,
    index_product: u8,
    index_serial_number: u8,
    configuration_count: u8,
}

pub struct EndpointDescriptor {
    length: u8,
    descriptor_type: USBDescriptorType,
    endpoint_address: u8,
    attributes: USBAttributes,
    max_packet_size: u16,
    polling_interval: u8,
    refresh: u8,
    synch_address: u8,
    extra: Vec<u8>,
}

pub struct InterfaceAssociationDescriptor {
    length: u8,
    descriptor_type: USBDescriptorType,
    first_interface: u8,
    interface_count: u8,
    function_class: u8,
    function_sub_class: u8,
    function_protocol: u8,
    function_index: u8,
}

pub struct InterfaceAssociationDescriptorArray {
    iad: InterfaceAssociationDescriptor,
    length: u32,
}

pub struct InterfaceDescriptor {
    length: u8,
    descriptor_type: USBDescriptorType,
    interface_id: u8,
    interface_alternative: u8,
    endpoint_count: u8,
    interface_class: USBClassCode,
    interface_sub_class: u8,
    interface_protocol: u8,
    interface_index: u8,
    endpoint: EndpointDescriptor,
    extra: Vec<u8>,
}

pub struct USBInterfaceDescriptor {
    altsetting: InterfaceDescriptor,
    alternate_setting_count: u32,
}

pub struct USBConfigDescriptor {
    length: u8,
    descriptor_type: USBDescriptorType,
    total_length: u16,
    interface_count: u8,
    configuration_id: u8,
    configuration_index: u8,
    attributes: USBAttributes,
    max_power: u8,
    interface: USBInterfaceDescriptor,
    extra: Vec<u8>,
}

pub struct SsEndpointCompanionDescriptor {
    length: u8,
    descriptor_type: USBDescriptorType,
    max_burst: u8,
    attributes: USBAttributes,
    bytes_per_interval: u16,
}

pub struct BosDevCapabilityDescriptor {
    length: u8,
    descriptor_type: USBDescriptorType,
    compatability_type: USBBinaryObjectStoreType,
    dev_capability_data: Vec<u8>,
}

pub struct BinaryObjectStoreDescriptor {
    length: u8,
    descriptor_type: USBDescriptorType,
    total_length: u16,
    device_capability_count: u8,
    dev_capability: Vec<BosDevCapabilityDescriptor>,
}

pub struct LibusbUsb20ExtensionDescriptor {
    length: u8,
    descriptor_type: USBDescriptorType,
    compatability_type: USBBinaryObjectStoreType,
    attributes: USBAttributes,
}

pub struct SsUsbDeviceCapabilityDescriptor {
    length: u8,
    descriptor_type: USBDescriptorType,
    compatability_type: USBBinaryObjectStoreType,
    attributes: USBAttributes,
    speed_supported: u16,
    functionality_support: u8,
    u1dev_exit_lat: u8,
    u2dev_exit_lat: u16,
}

pub enum SuperSpeedPlusSublinkAttributeSublinkType {
    AttrTypeSym,
    AttrTypeAsym,
}

pub enum SuperspeedplusSublinkAttributeSublinkDirection {
    LibusbSsplusAttrDirRx,
    LibusbSsplusAttrDirTx,
}

pub enum SuperspeedplusSublinkAttributeExponent {
    LibusbSsplusAttrExpBps,
    LibusbSsplusAttrExpKbs,
    LibusbSsplusAttrExpMbs,
    LibusbSsplusAttrExpGbs,
}

pub enum SuperspeedplusSublinkAttributeLinkProtocol {
    SsplusAttrProtSs,
    LibusbSsplusAttrProtSsplus,
}

pub enum LibusbSuperspeedplusSublinkAttributeExponent {
    LibusbSsplusAttrExpBps,
    LibusbSsplusAttrExpKbs,
    LibusbSsplusAttrExpMbs,
    LibusbSsplusAttrExpGbs,
}

pub enum LibusbSuperspeedplusSublinkAttributeSublinkType {
    LibusbSsplusAttrTypeSym,
    LibusbSsplusAttrTypeAsym,
}

pub struct LibusbSsplusSublinkAttribute {
    super_speed_id: u8,
    exponent: LibusbSuperspeedplusSublinkAttributeExponent,
    sublink_type: LibusbSuperspeedplusSublinkAttributeSublinkType,
    direction: SuperspeedplusSublinkAttributeSublinkDirection,
    protocol: SuperspeedplusSublinkAttributeLinkProtocol,
    mantissa: u16,
}

pub struct SsplusUsbDeviceCapabilityDescriptor {
    num_sublink_speed_attributes: u8,
    num_sublink_speed_ids: u8,
    ssid: u8,
    min_rx_lane_count: u8,
    min_tx_lane_count: u8,
    sublink_speed_attributes: Vec<LibusbSsplusSublinkAttribute>,
}

pub struct ContainerIdDescriptor {
    length: u8,
    descriptor_type: USBDescriptorType,
    compatability_type: USBBinaryObjectStoreType,
    reserved: u8,
    container_id: [u8; 16],
}

pub struct USBPlatformDescriptor {
    length: u8,
    descriptor_type: USBDescriptorType,
    compatability_type: USBBinaryObjectStoreType,
    reserved: u8,
    platform_capability_uuid: [u8; 16],
    capability_type: Vec<u8>,
}

} // verus!
