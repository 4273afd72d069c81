//! Reader for Total Phase USB captures: a CSV export that lists every packet
//! and transaction (with its nesting level), and a binary file that holds the
//! captured data of every listed item that has a length, back to back.
#![allow(dead_code)]

use crate::csv_export::{
    csv_record_results, csv_row_results, first_error, leading_rows, lemma_leading_rows, ok_results,
    results_view, skip_lines, skip_lines_spec, split_at_error,
};
use crate::hexdata::{decode_or_empty, hex_or_empty};
use crate::packet_tree::{
    packet_tree_free_slots, packet_tree_nodes, tree_add, tree_append, tree_children,
    tree_first_child, tree_get, tree_len, tree_new, tree_parent,
};
use crate::text::{
    char_vecs_view, chars_of, decimal_string, is_digit, lemma_decimal_string_nonempty,
    lemma_parse_decimal_string, lemma_parse_decimal_string_u32, lemma_split_append_plain,
    lemma_split_append_sep, contains_spec, contains_str, ends_with_spec, ends_with_str, eq_str,
    lemma_remove_spaces_keeps_ellipsis, lemma_split_nonempty, parse_u32, parse_u32_spec, parse_u64, parse_u64_spec,
    parse_u8, parse_u8_spec, remove_all_spec, remove_all_str, split, split_spec, string_of,
    strip_suffix_spec, strip_suffix_str, trim, trim_spec, u64_to_string,
};
use crate::usb_request_block::{
    USBControlStage, USBDirection, USBFunction, USBRequestBlock, USBSpeed, USBTransferType, UrbModel,
};
use vstd::prelude::*;

verus! {

#[derive(Debug, PartialEq, Eq, Structural, Copy, Clone)]
pub enum CaptureState {
    Stopped,
    Suspended,
    Started,
}

#[derive(Debug, PartialEq, Eq, Structural, Copy, Clone)]
pub enum TriggerType {
    Manual,
    ManualOrUSB2,
    ManualOrUSB3,
}

#[derive(Debug, PartialEq, Eq, Structural, Copy, Clone)]
pub enum VBusState {
    Present,
    Absent,
}

#[derive(Debug, PartialEq, Eq, Structural, Copy, Clone)]
pub enum ResetType {
    KeepAliveTargetDisconnected,
    KeepaliveChirpKTinyK,
    ChirpJTinyJ,
    ChipKTinyK,
    TargetDisconnected,
    LowFrequencyPeriodicSignalling,
    Default,
}

#[derive(Debug, PartialEq, Eq, Structural, Copy, Clone)]
pub enum ConnectionState {
    Connected,
    Disconnected,
}

#[derive(Debug, PartialEq, Eq, Structural, Copy, Clone)]
pub enum USB3Signal {
    ChipK,
    TinyK,
    ChirpK,
    TinyJ,
    ChirpJ,
}

#[derive(Debug, PartialEq, Eq, Structural, Clone, Copy)]
pub enum OperationType {
    ClearEndpointFeature,
    GetStringDescriptor,
    GetStorageInfo,
    GetDevicePropValue,
    GetObjectPropDesc,
    GetStorageIDs,
    GetDeviceInfo,
    CommandBlock,
    DataBlock,
    GetBOSDescriptor,
    ResponseBlock,
    NotYetPacket,
    InPacket,
    CorruptedPacket,
    PingAcknowledge,
    PingPacket,
    NegativeAcknowledge,
    SetIdle,
    InputPacket,
    SetInterface,
    GetHubDescriptor,
    SetupTransaction,
    SetPortFeature,
    OutputTransaction,
    AcknowledgePacket,
    Data1Packet,
    SetOutputReport,
    GetHubStatus,
    OutputDataNegativeAcknowledge,
    InputReport,
    ClearPortFeature,
    HubStatus,
    SetAddress,
    InputNegativeAcknowledge,
    GetPortStatus,
    GetDeviceDescriptor,
    GetDeviceStatus,
    GetReportDescriptor,
    InputTransaction,
    ControlTransfer,
    GetDeviceQualifierDescriptor,
    SetConfiguration,
    Data0Packet,
    OutputPacket,
    GetConfigurationDescriptor,
    SetupPacket,
    OpenSession,
    StartOfFramePacket,
    Comment,
    TargetState(ConnectionState),
    Trigger(TriggerType),
    LFPSUnknown,
    LFPSPolling,
    USB3Signal(USB3Signal),
    HostState(ConnectionState),
    SpeedTransition(USBSpeed),
    Reset(ResetType),
    VBus(VBusState),
    CaptureState(CaptureState),
    StallPacket,
    LinkTrainingStatusStateMachine,
    Unknown,
}

/// An error the capture reports for a packet. Error columns are not read yet,
/// so the reader never produces one.
#[derive(Debug)]
pub enum PacketError {
    Unknown,
}

#[derive(Debug)]
pub enum DataRecord {
    NoData,
    PartialData(Vec<u8>),
    Data(Vec<u8>),
}

// ----------------------------------------------------------------------------
// Operation names
// ----------------------------------------------------------------------------

/// The operation that a name in the capture's operation column stands for;
/// nothing for a name the reader does not know.
pub open spec fn operation_type_spec(name: Seq<char>) -> Option<OperationType> {
    if name == "Set Address"@ {
        Some(OperationType::SetAddress)
    } else if name == "OpenSession"@ {
        Some(OperationType::OpenSession)
    } else if name == "Command Block"@ {
        Some(OperationType::CommandBlock)
    } else if name == "GetDeviceInfo"@ {
        Some(OperationType::GetDeviceInfo)
    } else if name == "Get BOS Descriptor"@ {
        Some(OperationType::GetBOSDescriptor)
    } else if name == "Response Block"@ {
        Some(OperationType::ResponseBlock)
    } else if name == "LTSSM Transition"@ {
        Some(OperationType::LinkTrainingStatusStateMachine)
    } else if name == "Get Device Descriptor"@ {
        Some(OperationType::GetDeviceDescriptor)
    } else if name == "SETUP txn"@ {
        Some(OperationType::SetupTransaction)
    } else if name == "OUT tx"@ {
        Some(OperationType::OutputTransaction)
    } else if name == "Data Block"@ {
        Some(OperationType::DataBlock)
    } else if name == "OUT txn"@ {
        Some(OperationType::OutputTransaction)
    } else if name == "Get Hub Descriptor"@ {
        Some(OperationType::GetHubDescriptor)
    } else if name == "Set Port Feature"@ {
        Some(OperationType::SetPortFeature)
    } else if name == "Set Interface"@ {
        Some(OperationType::SetInterface)
    } else if name == "Detach"@ {
        Some(OperationType::TargetState(ConnectionState::Disconnected))
    } else if name == "Get Hub Status"@ {
        Some(OperationType::GetHubStatus)
    } else if name == "OUT-DATA-NAK"@ {
        Some(OperationType::OutputDataNegativeAcknowledge)
    } else if name == "Get Device Status"@ {
        Some(OperationType::GetDeviceStatus)
    } else if name == "IN txn"@ {
        Some(OperationType::InputTransaction)
    } else if name == "<Reset>"@ {
        Some(OperationType::Reset(ResetType::Default))
    } else if name == "Control Transfer"@ {
        Some(OperationType::ControlTransfer)
    } else if name == "Get String Descriptor"@ {
        Some(OperationType::GetStringDescriptor)
    } else if name == "Get Device Qualifier Descriptor"@ {
        Some(OperationType::GetDeviceQualifierDescriptor)
    } else if name == "Get Configuration Descriptor"@ {
        Some(OperationType::GetConfigurationDescriptor)
    } else if name == "Set Configuration"@ {
        Some(OperationType::SetConfiguration)
    } else if name == "DATA0 packet"@ {
        Some(OperationType::Data0Packet)
    } else if name == "DATA1 packet"@ {
        Some(OperationType::Data1Packet)
    } else if name == "OUT packet"@ {
        Some(OperationType::OutputPacket)
    } else if name == "IN packet"@ {
        Some(OperationType::InputPacket)
    } else if name == "GetStorageIDs"@ {
        Some(OperationType::GetStorageIDs)
    } else if name == "GetStorageInfo"@ {
        Some(OperationType::GetStorageInfo)
    } else if name == "Set Idle"@ {
        Some(OperationType::SetIdle)
    } else if name == "Hub Status"@ {
        Some(OperationType::HubStatus)
    } else if name == "Get Port Status"@ {
        Some(OperationType::GetPortStatus)
    } else if name == "ACK packet"@ {
        Some(OperationType::AcknowledgePacket)
    } else if name == "Clear Port Feature"@ {
        Some(OperationType::ClearPortFeature)
    } else if name == "SETUP packet"@ {
        Some(OperationType::SetupPacket)
    } else if name == "Comment"@ {
        Some(OperationType::Comment)
    } else if name == "GetObjectPropDesc"@ {
        Some(OperationType::GetObjectPropDesc)
    } else if name == "<HNP> / <Full-speed>"@ {
        Some(OperationType::SpeedTransition(USBSpeed::SpeedFull))
    } else if name == "<LFPS Polling/U1 Exit>"@ {
        Some(OperationType::LFPSPolling)
    } else if name == "<SuperSpeed Host Connected>"@ {
        Some(OperationType::HostState(ConnectionState::Connected))
    } else if name == "<LFPS Reset>"@ {
        Some(OperationType::Reset(ResetType::LowFrequencyPeriodicSignalling))
    } else if name == "<LFPS Polling>"@ {
        Some(OperationType::LFPSPolling)
    } else if name == "<LFPS Unknown>"@ {
        Some(OperationType::LFPSUnknown)
    } else if name == "<High-speed>"@ {
        Some(OperationType::SpeedTransition(USBSpeed::SpeedHigh))
    } else if name == "<Manual Trigger>"@ {
        Some(OperationType::Trigger(TriggerType::Manual))
    } else if name == "OUT txn (NAK)"@ {
        Some(OperationType::NegativeAcknowledge)
    } else if name == "<VBus Absent>"@ {
        Some(OperationType::VBus(VBusState::Absent))
    } else if name == "<Host disconnected>"@ {
        Some(OperationType::HostState(ConnectionState::Disconnected))
    } else if name == "<Reset> / <Keep-alive> / <Chirp K> / <Tiny K>"@ {
        Some(OperationType::Reset(ResetType::KeepaliveChirpKTinyK))
    } else if name == "PING-ACK"@ {
        Some(OperationType::PingAcknowledge)
    } else if name == "<Reset> / <Chirp K> / <Tiny K>"@ {
        Some(OperationType::Reset(ResetType::ChipKTinyK))
    } else if name == "<Chirp K>"@ {
        Some(OperationType::USB3Signal(USB3Signal::ChirpK))
    } else if name == "<Manual Trigger or USB2 Trigger>"@ {
        Some(OperationType::Trigger(TriggerType::ManualOrUSB2))
    } else if name == "<Manual Trigger or USB3 Trigger>"@ {
        Some(OperationType::Trigger(TriggerType::ManualOrUSB3))
    } else if name == "<VBus Present>"@ {
        Some(OperationType::VBus(VBusState::Present))
    } else if name == "NAK packet"@ {
        Some(OperationType::NegativeAcknowledge)
    } else if name == "<Chirp J>"@ {
        Some(OperationType::USB3Signal(USB3Signal::ChirpJ))
    } else if name == "CDC IN Data"@ {
        Some(OperationType::InputTransaction)
    } else if name == "CDC OUT Data"@ {
        Some(OperationType::OutputTransaction)
    } else if name == "Clear Endpoint Feature"@ {
        Some(OperationType::ClearEndpointFeature)
    } else if name == "<SuperSpeed Host Disconnected>"@ {
        Some(OperationType::HostState(ConnectionState::Disconnected))
    } else if name == "IN-NAK"@ {
        Some(OperationType::InputNegativeAcknowledge)
    } else if name == "GetDevicePropValue"@ {
        Some(OperationType::GetDevicePropValue)
    } else if name == "Get Report Descriptor"@ {
        Some(OperationType::GetReportDescriptor)
    } else if name == "<Host connected>"@ {
        Some(OperationType::HostState(ConnectionState::Connected))
    } else if name == "<Full-speed>"@ {
        Some(OperationType::SpeedTransition(USBSpeed::SpeedFull))
    } else if name == "<Reset> / <Target disconnected>"@ {
        Some(OperationType::Reset(ResetType::TargetDisconnected))
    } else if name == "Input Report"@ {
        Some(OperationType::InputReport)
    } else if name == "PING packet"@ {
        Some(OperationType::PingPacket)
    } else if name == "CORRUPTED packet"@ {
        Some(OperationType::CorruptedPacket)
    } else if name == "OUT txn (NYET)"@ {
        Some(OperationType::OutputTransaction)
    } else if name == "NYET packet"@ {
        Some(OperationType::NotYetPacket)
    } else if name == "Capture started (Sequential)"@ {
        Some(OperationType::CaptureState(CaptureState::Started))
    } else if name == "<Low-speed>"@ {
        Some(OperationType::SpeedTransition(USBSpeed::SpeedLow))
    } else if name == "<Reset> / <Keep-alive> / <Target disconnected>"@ {
        Some(OperationType::Reset(ResetType::KeepAliveTargetDisconnected))
    } else if name == "<Suspend>"@ {
        Some(OperationType::CaptureState(CaptureState::Suspended))
    } else if name == "IN"@ {
        Some(OperationType::InPacket)
    } else if name == "Capture stopped"@ {
        Some(OperationType::CaptureState(CaptureState::Stopped))
    } else if name == "Set Output Report"@ {
        Some(OperationType::SetOutputReport)
    } else if name == "<Reset> / <Chirp J> / <Tiny J>"@ {
        Some(OperationType::Reset(ResetType::ChirpJTinyJ))
    } else if name == "SOF packet"@ {
        Some(OperationType::StartOfFramePacket)
    } else if name == "<SuperSpeed Target Connected>"@ {
        Some(OperationType::TargetState(ConnectionState::Connected))
    } else if name == "STALL packet"@ {
        Some(OperationType::StallPacket)
    } else if name == "Capture started (Aggregate)"@ {
        Some(OperationType::CaptureState(CaptureState::Started))
    } else if name == ""@ {
        Some(OperationType::Unknown)
    } else {
        None
    }
}

/// Law: every name that the operation column of a capture uses reads as the
/// operation it names (the table below lists each name with its operation).
#[verifier::rlimit(100)]
#[verifier::spinoff_prover]
pub proof fn lemma_operation_names()
    ensures
        operation_type_spec("Set Address"@) == Some(OperationType::SetAddress),
        operation_type_spec("OpenSession"@) == Some(OperationType::OpenSession),
        operation_type_spec("Command Block"@) == Some(OperationType::CommandBlock),
        operation_type_spec("GetDeviceInfo"@) == Some(OperationType::GetDeviceInfo),
        operation_type_spec("Get BOS Descriptor"@) == Some(OperationType::GetBOSDescriptor),
        operation_type_spec("Response Block"@) == Some(OperationType::ResponseBlock),
        operation_type_spec("LTSSM Transition"@) == Some(OperationType::LinkTrainingStatusStateMachine),
        operation_type_spec("Get Device Descriptor"@) == Some(OperationType::GetDeviceDescriptor),
        operation_type_spec("SETUP txn"@) == Some(OperationType::SetupTransaction),
        operation_type_spec("OUT tx"@) == Some(OperationType::OutputTransaction),
        operation_type_spec("Data Block"@) == Some(OperationType::DataBlock),
        operation_type_spec("OUT txn"@) == Some(OperationType::OutputTransaction),
        operation_type_spec("Get Hub Descriptor"@) == Some(OperationType::GetHubDescriptor),
        operation_type_spec("Set Port Feature"@) == Some(OperationType::SetPortFeature),
        operation_type_spec("Set Interface"@) == Some(OperationType::SetInterface),
        operation_type_spec("Detach"@) == Some(OperationType::TargetState(ConnectionState::Disconnected)),
        operation_type_spec("Get Hub Status"@) == Some(OperationType::GetHubStatus),
        operation_type_spec("OUT-DATA-NAK"@) == Some(OperationType::OutputDataNegativeAcknowledge),
        operation_type_spec("Get Device Status"@) == Some(OperationType::GetDeviceStatus),
        operation_type_spec("IN txn"@) == Some(OperationType::InputTransaction),
        operation_type_spec("<Reset>"@) == Some(OperationType::Reset(ResetType::Default)),
        operation_type_spec("Control Transfer"@) == Some(OperationType::ControlTransfer),
        operation_type_spec("Get String Descriptor"@) == Some(OperationType::GetStringDescriptor),
        operation_type_spec("Get Device Qualifier Descriptor"@) == Some(OperationType::GetDeviceQualifierDescriptor),
        operation_type_spec("Get Configuration Descriptor"@) == Some(OperationType::GetConfigurationDescriptor),
        operation_type_spec("Set Configuration"@) == Some(OperationType::SetConfiguration),
        operation_type_spec("DATA0 packet"@) == Some(OperationType::Data0Packet),
        operation_type_spec("DATA1 packet"@) == Some(OperationType::Data1Packet),
        operation_type_spec("OUT packet"@) == Some(OperationType::OutputPacket),
        operation_type_spec("IN packet"@) == Some(OperationType::InputPacket),
        operation_type_spec("GetStorageIDs"@) == Some(OperationType::GetStorageIDs),
        operation_type_spec("GetStorageInfo"@) == Some(OperationType::GetStorageInfo),
        operation_type_spec("Set Idle"@) == Some(OperationType::SetIdle),
        operation_type_spec("Hub Status"@) == Some(OperationType::HubStatus),
        operation_type_spec("Get Port Status"@) == Some(OperationType::GetPortStatus),
        operation_type_spec("ACK packet"@) == Some(OperationType::AcknowledgePacket),
        operation_type_spec("Clear Port Feature"@) == Some(OperationType::ClearPortFeature),
        operation_type_spec("SETUP packet"@) == Some(OperationType::SetupPacket),
        operation_type_spec("Comment"@) == Some(OperationType::Comment),
        operation_type_spec("GetObjectPropDesc"@) == Some(OperationType::GetObjectPropDesc),
        operation_type_spec("<HNP> / <Full-speed>"@) == Some(OperationType::SpeedTransition(USBSpeed::SpeedFull)),
        operation_type_spec("<LFPS Polling/U1 Exit>"@) == Some(OperationType::LFPSPolling),
        operation_type_spec("<SuperSpeed Host Connected>"@) == Some(OperationType::HostState(ConnectionState::Connected)),
        operation_type_spec("<LFPS Reset>"@) == Some(OperationType::Reset(ResetType::LowFrequencyPeriodicSignalling)),
        operation_type_spec("<LFPS Polling>"@) == Some(OperationType::LFPSPolling),
        operation_type_spec("<LFPS Unknown>"@) == Some(OperationType::LFPSUnknown),
        operation_type_spec("<High-speed>"@) == Some(OperationType::SpeedTransition(USBSpeed::SpeedHigh)),
        operation_type_spec("<Manual Trigger>"@) == Some(OperationType::Trigger(TriggerType::Manual)),
        operation_type_spec("OUT txn (NAK)"@) == Some(OperationType::NegativeAcknowledge),
        operation_type_spec("<VBus Absent>"@) == Some(OperationType::VBus(VBusState::Absent)),
        operation_type_spec("<Host disconnected>"@) == Some(OperationType::HostState(ConnectionState::Disconnected)),
        operation_type_spec("<Reset> / <Keep-alive> / <Chirp K> / <Tiny K>"@) == Some(OperationType::Reset(ResetType::KeepaliveChirpKTinyK)),
        operation_type_spec("PING-ACK"@) == Some(OperationType::PingAcknowledge),
        operation_type_spec("<Reset> / <Chirp K> / <Tiny K>"@) == Some(OperationType::Reset(ResetType::ChipKTinyK)),
        operation_type_spec("<Chirp K>"@) == Some(OperationType::USB3Signal(USB3Signal::ChirpK)),
        operation_type_spec("<Manual Trigger or USB2 Trigger>"@) == Some(OperationType::Trigger(TriggerType::ManualOrUSB2)),
        operation_type_spec("<Manual Trigger or USB3 Trigger>"@) == Some(OperationType::Trigger(TriggerType::ManualOrUSB3)),
        operation_type_spec("<VBus Present>"@) == Some(OperationType::VBus(VBusState::Present)),
        operation_type_spec("NAK packet"@) == Some(OperationType::NegativeAcknowledge),
        operation_type_spec("<Chirp J>"@) == Some(OperationType::USB3Signal(USB3Signal::ChirpJ)),
        operation_type_spec("CDC IN Data"@) == Some(OperationType::InputTransaction),
        operation_type_spec("CDC OUT Data"@) == Some(OperationType::OutputTransaction),
        operation_type_spec("Clear Endpoint Feature"@) == Some(OperationType::ClearEndpointFeature),
        operation_type_spec("<SuperSpeed Host Disconnected>"@) == Some(OperationType::HostState(ConnectionState::Disconnected)),
        operation_type_spec("IN-NAK"@) == Some(OperationType::InputNegativeAcknowledge),
        operation_type_spec("GetDevicePropValue"@) == Some(OperationType::GetDevicePropValue),
        operation_type_spec("Get Report Descriptor"@) == Some(OperationType::GetReportDescriptor),
        operation_type_spec("<Host connected>"@) == Some(OperationType::HostState(ConnectionState::Connected)),
        operation_type_spec("<Full-speed>"@) == Some(OperationType::SpeedTransition(USBSpeed::SpeedFull)),
        operation_type_spec("<Reset> / <Target disconnected>"@) == Some(OperationType::Reset(ResetType::TargetDisconnected)),
        operation_type_spec("Input Report"@) == Some(OperationType::InputReport),
        operation_type_spec("PING packet"@) == Some(OperationType::PingPacket),
        operation_type_spec("CORRUPTED packet"@) == Some(OperationType::CorruptedPacket),
        operation_type_spec("OUT txn (NYET)"@) == Some(OperationType::OutputTransaction),
        operation_type_spec("NYET packet"@) == Some(OperationType::NotYetPacket),
        operation_type_spec("Capture started (Sequential)"@) == Some(OperationType::CaptureState(CaptureState::Started)),
        operation_type_spec("<Low-speed>"@) == Some(OperationType::SpeedTransition(USBSpeed::SpeedLow)),
        operation_type_spec("<Reset> / <Keep-alive> / <Target disconnected>"@) == Some(OperationType::Reset(ResetType::KeepAliveTargetDisconnected)),
        operation_type_spec("<Suspend>"@) == Some(OperationType::CaptureState(CaptureState::Suspended)),
        operation_type_spec("IN"@) == Some(OperationType::InPacket),
        operation_type_spec("Capture stopped"@) == Some(OperationType::CaptureState(CaptureState::Stopped)),
        operation_type_spec("Set Output Report"@) == Some(OperationType::SetOutputReport),
        operation_type_spec("<Reset> / <Chirp J> / <Tiny J>"@) == Some(OperationType::Reset(ResetType::ChirpJTinyJ)),
        operation_type_spec("SOF packet"@) == Some(OperationType::StartOfFramePacket),
        operation_type_spec("<SuperSpeed Target Connected>"@) == Some(OperationType::TargetState(ConnectionState::Connected)),
        operation_type_spec("STALL packet"@) == Some(OperationType::StallPacket),
        operation_type_spec("Capture started (Aggregate)"@) == Some(OperationType::CaptureState(CaptureState::Started)),
        operation_type_spec(""@) == Some(OperationType::Unknown),
{
    reveal_strlit("Set Address");
    assert("Set Address"@.len() == 11);
    reveal_strlit("OpenSession");
    assert("OpenSession"@.len() == 11);
    reveal_strlit("Command Block");
    assert("Command Block"@.len() == 13);
    reveal_strlit("GetDeviceInfo");
    assert("GetDeviceInfo"@.len() == 13);
    reveal_strlit("Get BOS Descriptor");
    assert("Get BOS Descriptor"@.len() == 18);
    reveal_strlit("Response Block");
    assert("Response Block"@.len() == 14);
    reveal_strlit("LTSSM Transition");
    assert("LTSSM Transition"@.len() == 16);
    reveal_strlit("Get Device Descriptor");
    assert("Get Device Descriptor"@.len() == 21);
    reveal_strlit("SETUP txn");
    assert("SETUP txn"@.len() == 9);
    reveal_strlit("OUT tx");
    assert("OUT tx"@.len() == 6);
    reveal_strlit("Data Block");
    assert("Data Block"@.len() == 10);
    reveal_strlit("OUT txn");
    assert("OUT txn"@.len() == 7);
    reveal_strlit("Get Hub Descriptor");
    assert("Get Hub Descriptor"@.len() == 18);
    reveal_strlit("Set Port Feature");
    assert("Set Port Feature"@.len() == 16);
    reveal_strlit("Set Interface");
    assert("Set Interface"@.len() == 13);
    reveal_strlit("Detach");
    assert("Detach"@.len() == 6);
    reveal_strlit("Get Hub Status");
    assert("Get Hub Status"@.len() == 14);
    reveal_strlit("OUT-DATA-NAK");
    assert("OUT-DATA-NAK"@.len() == 12);
    reveal_strlit("Get Device Status");
    assert("Get Device Status"@.len() == 17);
    reveal_strlit("IN txn");
    assert("IN txn"@.len() == 6);
    reveal_strlit("<Reset>");
    assert("<Reset>"@.len() == 7);
    reveal_strlit("Control Transfer");
    assert("Control Transfer"@.len() == 16);
    reveal_strlit("Get String Descriptor");
    assert("Get String Descriptor"@.len() == 21);
    reveal_strlit("Get Device Qualifier Descriptor");
    assert("Get Device Qualifier Descriptor"@.len() == 31);
    reveal_strlit("Get Configuration Descriptor");
    assert("Get Configuration Descriptor"@.len() == 28);
    reveal_strlit("Set Configuration");
    assert("Set Configuration"@.len() == 17);
    reveal_strlit("DATA0 packet");
    assert("DATA0 packet"@.len() == 12);
    reveal_strlit("DATA1 packet");
    assert("DATA1 packet"@.len() == 12);
    reveal_strlit("OUT packet");
    assert("OUT packet"@.len() == 10);
    reveal_strlit("IN packet");
    assert("IN packet"@.len() == 9);
    reveal_strlit("GetStorageIDs");
    assert("GetStorageIDs"@.len() == 13);
    reveal_strlit("GetStorageInfo");
    assert("GetStorageInfo"@.len() == 14);
    reveal_strlit("Set Idle");
    assert("Set Idle"@.len() == 8);
    reveal_strlit("Hub Status");
    assert("Hub Status"@.len() == 10);
    reveal_strlit("Get Port Status");
    assert("Get Port Status"@.len() == 15);
    reveal_strlit("ACK packet");
    assert("ACK packet"@.len() == 10);
    reveal_strlit("Clear Port Feature");
    assert("Clear Port Feature"@.len() == 18);
    reveal_strlit("SETUP packet");
    assert("SETUP packet"@.len() == 12);
    reveal_strlit("Comment");
    assert("Comment"@.len() == 7);
    reveal_strlit("GetObjectPropDesc");
    assert("GetObjectPropDesc"@.len() == 17);
    reveal_strlit("<HNP> / <Full-speed>");
    assert("<HNP> / <Full-speed>"@.len() == 20);
    reveal_strlit("<LFPS Polling/U1 Exit>");
    assert("<LFPS Polling/U1 Exit>"@.len() == 22);
    reveal_strlit("<SuperSpeed Host Connected>");
    assert("<SuperSpeed Host Connected>"@.len() == 27);
    reveal_strlit("<LFPS Reset>");
    assert("<LFPS Reset>"@.len() == 12);
    reveal_strlit("<LFPS Polling>");
    assert("<LFPS Polling>"@.len() == 14);
    reveal_strlit("<LFPS Unknown>");
    assert("<LFPS Unknown>"@.len() == 14);
    reveal_strlit("<High-speed>");
    assert("<High-speed>"@.len() == 12);
    reveal_strlit("<Manual Trigger>");
    assert("<Manual Trigger>"@.len() == 16);
    reveal_strlit("OUT txn (NAK)");
    assert("OUT txn (NAK)"@.len() == 13);
    reveal_strlit("<VBus Absent>");
    assert("<VBus Absent>"@.len() == 13);
    reveal_strlit("<Host disconnected>");
    assert("<Host disconnected>"@.len() == 19);
    reveal_strlit("<Reset> / <Keep-alive> / <Chirp K> / <Tiny K>");
    assert("<Reset> / <Keep-alive> / <Chirp K> / <Tiny K>"@.len() == 45);
    reveal_strlit("PING-ACK");
    assert("PING-ACK"@.len() == 8);
    reveal_strlit("<Reset> / <Chirp K> / <Tiny K>");
    assert("<Reset> / <Chirp K> / <Tiny K>"@.len() == 30);
    reveal_strlit("<Chirp K>");
    assert("<Chirp K>"@.len() == 9);
    reveal_strlit("<Manual Trigger or USB2 Trigger>");
    assert("<Manual Trigger or USB2 Trigger>"@.len() == 32);
    reveal_strlit("<Manual Trigger or USB3 Trigger>");
    assert("<Manual Trigger or USB3 Trigger>"@.len() == 32);
    reveal_strlit("<VBus Present>");
    assert("<VBus Present>"@.len() == 14);
    reveal_strlit("NAK packet");
    assert("NAK packet"@.len() == 10);
    reveal_strlit("<Chirp J>");
    assert("<Chirp J>"@.len() == 9);
    reveal_strlit("CDC IN Data");
    assert("CDC IN Data"@.len() == 11);
    reveal_strlit("CDC OUT Data");
    assert("CDC OUT Data"@.len() == 12);
    reveal_strlit("Clear Endpoint Feature");
    assert("Clear Endpoint Feature"@.len() == 22);
    reveal_strlit("<SuperSpeed Host Disconnected>");
    assert("<SuperSpeed Host Disconnected>"@.len() == 30);
    reveal_strlit("IN-NAK");
    assert("IN-NAK"@.len() == 6);
    reveal_strlit("GetDevicePropValue");
    assert("GetDevicePropValue"@.len() == 18);
    reveal_strlit("Get Report Descriptor");
    assert("Get Report Descriptor"@.len() == 21);
    reveal_strlit("<Host connected>");
    assert("<Host connected>"@.len() == 16);
    reveal_strlit("<Full-speed>");
    assert("<Full-speed>"@.len() == 12);
    reveal_strlit("<Reset> / <Target disconnected>");
    assert("<Reset> / <Target disconnected>"@.len() == 31);
    reveal_strlit("Input Report");
    assert("Input Report"@.len() == 12);
    reveal_strlit("PING packet");
    assert("PING packet"@.len() == 11);
    reveal_strlit("CORRUPTED packet");
    assert("CORRUPTED packet"@.len() == 16);
    reveal_strlit("OUT txn (NYET)");
    assert("OUT txn (NYET)"@.len() == 14);
    reveal_strlit("NYET packet");
    assert("NYET packet"@.len() == 11);
    reveal_strlit("Capture started (Sequential)");
    assert("Capture started (Sequential)"@.len() == 28);
    reveal_strlit("<Low-speed>");
    assert("<Low-speed>"@.len() == 11);
    reveal_strlit("<Reset> / <Keep-alive> / <Target disconnected>");
    assert("<Reset> / <Keep-alive> / <Target disconnected>"@.len() == 46);
    reveal_strlit("<Suspend>");
    assert("<Suspend>"@.len() == 9);
    reveal_strlit("IN");
    assert("IN"@.len() == 2);
    reveal_strlit("Capture stopped");
    assert("Capture stopped"@.len() == 15);
    reveal_strlit("Set Output Report");
    assert("Set Output Report"@.len() == 17);
    reveal_strlit("<Reset> / <Chirp J> / <Tiny J>");
    assert("<Reset> / <Chirp J> / <Tiny J>"@.len() == 30);
    reveal_strlit("SOF packet");
    assert("SOF packet"@.len() == 10);
    reveal_strlit("<SuperSpeed Target Connected>");
    assert("<SuperSpeed Target Connected>"@.len() == 29);
    reveal_strlit("STALL packet");
    assert("STALL packet"@.len() == 12);
    reveal_strlit("Capture started (Aggregate)");
    assert("Capture started (Aggregate)"@.len() == 27);
    reveal_strlit("");
    assert(""@.len() == 0);
    assert("Set Address"@[0] == 'S');
    assert("OpenSession"@[0] == 'O');
    assert("Command Block"@[0] == 'C');
    assert("GetDeviceInfo"@[0] == 'G');
    assert("GetDeviceInfo"@[3] == 'D');
    assert("Get BOS Descriptor"@[0] == 'G');
    assert("Get BOS Descriptor"@[3] == ' ');
    assert("Get BOS Descriptor"@[4] == 'B');
    assert("Response Block"@[0] == 'R');
    assert("LTSSM Transition"@[0] == 'L');
    assert("Get Device Descriptor"@[4] == 'D');
    assert("SETUP txn"@[0] == 'S');
    assert("OUT tx"@[0] == 'O');
    assert("Data Block"@[0] == 'D');
    assert("OUT txn"@[0] == 'O');
    assert("Get Hub Descriptor"@[0] == 'G');
    assert("Get Hub Descriptor"@[3] == ' ');
    assert("Get Hub Descriptor"@[4] == 'H');
    assert("Set Port Feature"@[0] == 'S');
    assert("Set Interface"@[0] == 'S');
    assert("Detach"@[0] == 'D');
    assert("Get Hub Status"@[0] == 'G');
    assert("Get Hub Status"@[3] == ' ');
    assert("OUT-DATA-NAK"@[0] == 'O');
    assert("Get Device Status"@[0] == 'G');
    assert("Get Device Status"@[3] == ' ');
    assert("IN txn"@[0] == 'I');
    assert("IN txn"@[2] == ' ');
    assert("<Reset>"@[0] == '<');
    assert("Control Transfer"@[0] == 'C');
    assert("Control Transfer"@[1] == 'o');
    assert("Get String Descriptor"@[4] == 'S');
    assert("Get Device Qualifier Descriptor"@[0] == 'G');
    assert("Get Configuration Descriptor"@[0] == 'G');
    assert("Set Configuration"@[0] == 'S');
    assert("Set Configuration"@[4] == 'C');
    assert("DATA0 packet"@[0] == 'D');
    assert("DATA0 packet"@[4] == '0');
    assert("DATA1 packet"@[0] == 'D');
    assert("DATA1 packet"@[4] == '1');
    assert("OUT packet"@[0] == 'O');
    assert("IN packet"@[0] == 'I');
    assert("GetStorageIDs"@[0] == 'G');
    assert("GetStorageIDs"@[3] == 'S');
    assert("GetStorageInfo"@[0] == 'G');
    assert("GetStorageInfo"@[3] == 'S');
    assert("Set Idle"@[0] == 'S');
    assert("Hub Status"@[0] == 'H');
    assert("Get Port Status"@[0] == 'G');
    assert("ACK packet"@[0] == 'A');
    assert("Clear Port Feature"@[0] == 'C');
    assert("SETUP packet"@[0] == 'S');
    assert("SETUP packet"@[1] == 'E');
    assert("Comment"@[0] == 'C');
    assert("GetObjectPropDesc"@[0] == 'G');
    assert("GetObjectPropDesc"@[3] == 'O');
    assert("<LFPS Polling/U1 Exit>"@[0] == '<');
    assert("<SuperSpeed Host Connected>"@[0] == '<');
    assert("<LFPS Reset>"@[0] == '<');
    assert("<LFPS Reset>"@[1] == 'L');
    assert("<LFPS Polling>"@[0] == '<');
    assert("<LFPS Polling>"@[1] == 'L');
    assert("<LFPS Polling>"@[6] == 'P');
    assert("<LFPS Unknown>"@[0] == '<');
    assert("<LFPS Unknown>"@[1] == 'L');
    assert("<LFPS Unknown>"@[6] == 'U');
    assert("<High-speed>"@[0] == '<');
    assert("<High-speed>"@[1] == 'H');
    assert("<Manual Trigger>"@[0] == '<');
    assert("<Manual Trigger>"@[1] == 'M');
    assert("OUT txn (NAK)"@[0] == 'O');
    assert("<VBus Absent>"@[0] == '<');
    assert("PING-ACK"@[0] == 'P');
    assert("<Reset> / <Chirp K> / <Tiny K>"@[1] == 'R');
    assert("<Reset> / <Chirp K> / <Tiny K>"@[17] == 'K');
    assert("<Chirp K>"@[0] == '<');
    assert("<Chirp K>"@[1] == 'C');
    assert("<Chirp K>"@[7] == 'K');
    assert("<Manual Trigger or USB2 Trigger>"@[22] == '2');
    assert("<Manual Trigger or USB3 Trigger>"@[22] == '3');
    assert("<VBus Present>"@[0] == '<');
    assert("<VBus Present>"@[1] == 'V');
    assert("NAK packet"@[0] == 'N');
    assert("<Chirp J>"@[0] == '<');
    assert("<Chirp J>"@[1] == 'C');
    assert("<Chirp J>"@[7] == 'J');
    assert("CDC IN Data"@[0] == 'C');
    assert("CDC OUT Data"@[0] == 'C');
    assert("Clear Endpoint Feature"@[0] == 'C');
    assert("<SuperSpeed Host Disconnected>"@[1] == 'S');
    assert("IN-NAK"@[0] == 'I');
    assert("IN-NAK"@[2] == '-');
    assert("GetDevicePropValue"@[0] == 'G');
    assert("GetDevicePropValue"@[3] == 'D');
    assert("Get Report Descriptor"@[4] == 'R');
    assert("<Host connected>"@[0] == '<');
    assert("<Host connected>"@[1] == 'H');
    assert("<Full-speed>"@[0] == '<');
    assert("<Full-speed>"@[1] == 'F');
    assert("<Reset> / <Target disconnected>"@[0] == '<');
    assert("Input Report"@[0] == 'I');
    assert("PING packet"@[0] == 'P');
    assert("CORRUPTED packet"@[0] == 'C');
    assert("CORRUPTED packet"@[1] == 'O');
    assert("OUT txn (NYET)"@[0] == 'O');
    assert("NYET packet"@[0] == 'N');
    assert("Capture started (Sequential)"@[0] == 'C');
    assert("<Low-speed>"@[0] == '<');
    assert("<Suspend>"@[0] == '<');
    assert("<Suspend>"@[1] == 'S');
    assert("Capture stopped"@[0] == 'C');
    assert("Set Output Report"@[0] == 'S');
    assert("Set Output Report"@[4] == 'O');
    assert("<Reset> / <Chirp J> / <Tiny J>"@[1] == 'R');
    assert("<Reset> / <Chirp J> / <Tiny J>"@[17] == 'J');
    assert("SOF packet"@[0] == 'S');
    assert("STALL packet"@[0] == 'S');
    assert("STALL packet"@[1] == 'T');
    assert("Capture started (Aggregate)"@[0] == 'C');
}

/// The operation that a name stands for, if the reader knows the name.
pub fn operation_type_of(name: &Vec<char>) -> (op: Option<OperationType>)
    ensures
        op == operation_type_spec(name@),
{
    if eq_str(name, "Set Address") {
        Some(OperationType::SetAddress)
    } else if eq_str(name, "OpenSession") {
        Some(OperationType::OpenSession)
    } else if eq_str(name, "Command Block") {
        Some(OperationType::CommandBlock)
    } else if eq_str(name, "GetDeviceInfo") {
        Some(OperationType::GetDeviceInfo)
    } else if eq_str(name, "Get BOS Descriptor") {
        Some(OperationType::GetBOSDescriptor)
    } else if eq_str(name, "Response Block") {
        Some(OperationType::ResponseBlock)
    } else if eq_str(name, "LTSSM Transition") {
        Some(OperationType::LinkTrainingStatusStateMachine)
    } else if eq_str(name, "Get Device Descriptor") {
        Some(OperationType::GetDeviceDescriptor)
    } else if eq_str(name, "SETUP txn") {
        Some(OperationType::SetupTransaction)
    } else if eq_str(name, "OUT tx") {
        Some(OperationType::OutputTransaction)
    } else if eq_str(name, "Data Block") {
        Some(OperationType::DataBlock)
    } else if eq_str(name, "OUT txn") {
        Some(OperationType::OutputTransaction)
    } else if eq_str(name, "Get Hub Descriptor") {
        Some(OperationType::GetHubDescriptor)
    } else if eq_str(name, "Set Port Feature") {
        Some(OperationType::SetPortFeature)
    } else if eq_str(name, "Set Interface") {
        Some(OperationType::SetInterface)
    } else if eq_str(name, "Detach") {
        Some(OperationType::TargetState(ConnectionState::Disconnected))
    } else if eq_str(name, "Get Hub Status") {
        Some(OperationType::GetHubStatus)
    } else if eq_str(name, "OUT-DATA-NAK") {
        Some(OperationType::OutputDataNegativeAcknowledge)
    } else if eq_str(name, "Get Device Status") {
        Some(OperationType::GetDeviceStatus)
    } else if eq_str(name, "IN txn") {
        Some(OperationType::InputTransaction)
    } else if eq_str(name, "<Reset>") {
        Some(OperationType::Reset(ResetType::Default))
    } else if eq_str(name, "Control Transfer") {
        Some(OperationType::ControlTransfer)
    } else if eq_str(name, "Get String Descriptor") {
        Some(OperationType::GetStringDescriptor)
    } else if eq_str(name, "Get Device Qualifier Descriptor") {
        Some(OperationType::GetDeviceQualifierDescriptor)
    } else if eq_str(name, "Get Configuration Descriptor") {
        Some(OperationType::GetConfigurationDescriptor)
    } else if eq_str(name, "Set Configuration") {
        Some(OperationType::SetConfiguration)
    } else if eq_str(name, "DATA0 packet") {
        Some(OperationType::Data0Packet)
    } else if eq_str(name, "DATA1 packet") {
        Some(OperationType::Data1Packet)
    } else if eq_str(name, "OUT packet") {
        Some(OperationType::OutputPacket)
    } else if eq_str(name, "IN packet") {
        Some(OperationType::InputPacket)
    } else if eq_str(name, "GetStorageIDs") {
        Some(OperationType::GetStorageIDs)
    } else if eq_str(name, "GetStorageInfo") {
        Some(OperationType::GetStorageInfo)
    } else if eq_str(name, "Set Idle") {
        Some(OperationType::SetIdle)
    } else if eq_str(name, "Hub Status") {
        Some(OperationType::HubStatus)
    } else if eq_str(name, "Get Port Status") {
        Some(OperationType::GetPortStatus)
    } else if eq_str(name, "ACK packet") {
        Some(OperationType::AcknowledgePacket)
    } else if eq_str(name, "Clear Port Feature") {
        Some(OperationType::ClearPortFeature)
    } else if eq_str(name, "SETUP packet") {
        Some(OperationType::SetupPacket)
    } else if eq_str(name, "Comment") {
        Some(OperationType::Comment)
    } else if eq_str(name, "GetObjectPropDesc") {
        Some(OperationType::GetObjectPropDesc)
    } else if eq_str(name, "<HNP> / <Full-speed>") {
        Some(OperationType::SpeedTransition(USBSpeed::SpeedFull))
    } else if eq_str(name, "<LFPS Polling/U1 Exit>") {
        Some(OperationType::LFPSPolling)
    } else if eq_str(name, "<SuperSpeed Host Connected>") {
        Some(OperationType::HostState(ConnectionState::Connected))
    } else if eq_str(name, "<LFPS Reset>") {
        Some(OperationType::Reset(ResetType::LowFrequencyPeriodicSignalling))
    } else if eq_str(name, "<LFPS Polling>") {
        Some(OperationType::LFPSPolling)
    } else if eq_str(name, "<LFPS Unknown>") {
        Some(OperationType::LFPSUnknown)
    } else if eq_str(name, "<High-speed>") {
        Some(OperationType::SpeedTransition(USBSpeed::SpeedHigh))
    } else if eq_str(name, "<Manual Trigger>") {
        Some(OperationType::Trigger(TriggerType::Manual))
    } else if eq_str(name, "OUT txn (NAK)") {
        Some(OperationType::NegativeAcknowledge)
    } else if eq_str(name, "<VBus Absent>") {
        Some(OperationType::VBus(VBusState::Absent))
    } else if eq_str(name, "<Host disconnected>") {
        Some(OperationType::HostState(ConnectionState::Disconnected))
    } else if eq_str(name, "<Reset> / <Keep-alive> / <Chirp K> / <Tiny K>") {
        Some(OperationType::Reset(ResetType::KeepaliveChirpKTinyK))
    } else if eq_str(name, "PING-ACK") {
        Some(OperationType::PingAcknowledge)
    } else if eq_str(name, "<Reset> / <Chirp K> / <Tiny K>") {
        Some(OperationType::Reset(ResetType::ChipKTinyK))
    } else if eq_str(name, "<Chirp K>") {
        Some(OperationType::USB3Signal(USB3Signal::ChirpK))
    } else if eq_str(name, "<Manual Trigger or USB2 Trigger>") {
        Some(OperationType::Trigger(TriggerType::ManualOrUSB2))
    } else if eq_str(name, "<Manual Trigger or USB3 Trigger>") {
        Some(OperationType::Trigger(TriggerType::ManualOrUSB3))
    } else if eq_str(name, "<VBus Present>") {
        Some(OperationType::VBus(VBusState::Present))
    } else if eq_str(name, "NAK packet") {
        Some(OperationType::NegativeAcknowledge)
    } else if eq_str(name, "<Chirp J>") {
        Some(OperationType::USB3Signal(USB3Signal::ChirpJ))
    } else if eq_str(name, "CDC IN Data") {
        Some(OperationType::InputTransaction)
    } else if eq_str(name, "CDC OUT Data") {
        Some(OperationType::OutputTransaction)
    } else if eq_str(name, "Clear Endpoint Feature") {
        Some(OperationType::ClearEndpointFeature)
    } else if eq_str(name, "<SuperSpeed Host Disconnected>") {
        Some(OperationType::HostState(ConnectionState::Disconnected))
    } else if eq_str(name, "IN-NAK") {
        Some(OperationType::InputNegativeAcknowledge)
    } else if eq_str(name, "GetDevicePropValue") {
        Some(OperationType::GetDevicePropValue)
    } else if eq_str(name, "Get Report Descriptor") {
        Some(OperationType::GetReportDescriptor)
    } else if eq_str(name, "<Host connected>") {
        Some(OperationType::HostState(ConnectionState::Connected))
    } else if eq_str(name, "<Full-speed>") {
        Some(OperationType::SpeedTransition(USBSpeed::SpeedFull))
    } else if eq_str(name, "<Reset> / <Target disconnected>") {
        Some(OperationType::Reset(ResetType::TargetDisconnected))
    } else if eq_str(name, "Input Report") {
        Some(OperationType::InputReport)
    } else if eq_str(name, "PING packet") {
        Some(OperationType::PingPacket)
    } else if eq_str(name, "CORRUPTED packet") {
        Some(OperationType::CorruptedPacket)
    } else if eq_str(name, "OUT txn (NYET)") {
        Some(OperationType::OutputTransaction)
    } else if eq_str(name, "NYET packet") {
        Some(OperationType::NotYetPacket)
    } else if eq_str(name, "Capture started (Sequential)") {
        Some(OperationType::CaptureState(CaptureState::Started))
    } else if eq_str(name, "<Low-speed>") {
        Some(OperationType::SpeedTransition(USBSpeed::SpeedLow))
    } else if eq_str(name, "<Reset> / <Keep-alive> / <Target disconnected>") {
        Some(OperationType::Reset(ResetType::KeepAliveTargetDisconnected))
    } else if eq_str(name, "<Suspend>") {
        Some(OperationType::CaptureState(CaptureState::Suspended))
    } else if eq_str(name, "IN") {
        Some(OperationType::InPacket)
    } else if eq_str(name, "Capture stopped") {
        Some(OperationType::CaptureState(CaptureState::Stopped))
    } else if eq_str(name, "Set Output Report") {
        Some(OperationType::SetOutputReport)
    } else if eq_str(name, "<Reset> / <Chirp J> / <Tiny J>") {
        Some(OperationType::Reset(ResetType::ChirpJTinyJ))
    } else if eq_str(name, "SOF packet") {
        Some(OperationType::StartOfFramePacket)
    } else if eq_str(name, "<SuperSpeed Target Connected>") {
        Some(OperationType::TargetState(ConnectionState::Connected))
    } else if eq_str(name, "STALL packet") {
        Some(OperationType::StallPacket)
    } else if eq_str(name, "Capture started (Aggregate)") {
        Some(OperationType::CaptureState(CaptureState::Started))
    } else if eq_str(name, "") {
        Some(OperationType::Unknown)
    } else {
        None
    }
}

/// The operation that a name in the capture's operation column stands for.
pub fn operation_to_operation_type(operation: String) -> (op: OperationType)
    requires
        operation_type_spec(operation@) is Some,
    ensures
        Some(op) == operation_type_spec(operation@),
{
    let name = chars_of(operation.as_str());
    operation_type_of(&name).unwrap()
}

/// Law: descriptor requests to the device are recorded as getting a descriptor
/// from the device, Set Configuration as selecting a configuration, Get
/// Configuration Descriptor as getting the configuration, a control transfer
/// as an extended control transfer, DATA0/DATA1 packets as control transfers,
/// and IN/OUT transactions, data packets and input reports as bulk or
/// interrupt transfers; every other operation has no known function.
pub proof fn lemma_usb_functions(op: OperationType)
    ensures
        op == OperationType::GetDeviceDescriptor || op == OperationType::GetStringDescriptor
            ==> usb_function_spec(op) == USBFunction::GetDescriptorFromDevice,
        op == OperationType::SetConfiguration ==> usb_function_spec(op)
            == USBFunction::SelectConfiguration,
        op == OperationType::GetConfigurationDescriptor ==> usb_function_spec(op)
            == USBFunction::GetConfiguration,
        op == OperationType::ControlTransfer ==> usb_function_spec(op)
            == USBFunction::ControlTransferEx,
        op == OperationType::Data0Packet || op == OperationType::Data1Packet ==> usb_function_spec(op)
            == USBFunction::ControlTransfer,
        op == OperationType::InputTransaction || op == OperationType::OutputTransaction || op
            == OperationType::InputPacket || op == OperationType::OutputPacket || op
            == OperationType::InPacket || op == OperationType::InputReport ==> usb_function_spec(op)
            == USBFunction::BulkOrInterruptTransfer,
        usb_function_spec(op) != USBFunction::Unknown ==> {
            ||| op == OperationType::GetDeviceDescriptor
            ||| op == OperationType::GetStringDescriptor
            ||| op == OperationType::SetConfiguration
            ||| op == OperationType::GetConfigurationDescriptor
            ||| op == OperationType::ControlTransfer
            ||| op == OperationType::Data0Packet
            ||| op == OperationType::Data1Packet
            ||| op == OperationType::InputTransaction
            ||| op == OperationType::OutputTransaction
            ||| op == OperationType::InputPacket
            ||| op == OperationType::OutputPacket
            ||| op == OperationType::InPacket
            ||| op == OperationType::InputReport
        },
{
}

/// The URB function that an operation is recorded with.
pub open spec fn usb_function_spec(op: OperationType) -> USBFunction {
    match op {
        OperationType::GetDeviceDescriptor => USBFunction::GetDescriptorFromDevice,
        OperationType::SetConfiguration => USBFunction::SelectConfiguration,
        OperationType::OutputPacket => USBFunction::BulkOrInterruptTransfer,
        OperationType::GetStringDescriptor => USBFunction::GetDescriptorFromDevice,
        OperationType::ControlTransfer => USBFunction::ControlTransferEx,
        OperationType::GetConfigurationDescriptor => USBFunction::GetConfiguration,
        OperationType::Data0Packet => USBFunction::ControlTransfer,
        OperationType::Data1Packet => USBFunction::ControlTransfer,
        OperationType::OutputTransaction | OperationType::InputPacket | OperationType::InPacket
        | OperationType::InputTransaction => USBFunction::BulkOrInterruptTransfer,
        OperationType::InputReport => USBFunction::BulkOrInterruptTransfer,
        _ => USBFunction::Unknown,
    }
}

/// The URB function that an operation is recorded with.
pub fn total_phase_to_usb_function(op: OperationType) -> (f: USBFunction)
    ensures
        f == usb_function_spec(op),
{
    match op {
        OperationType::GetDeviceDescriptor => USBFunction::GetDescriptorFromDevice,
        OperationType::SetConfiguration => USBFunction::SelectConfiguration,
        OperationType::OutputPacket => USBFunction::BulkOrInterruptTransfer,
        OperationType::GetStringDescriptor => USBFunction::GetDescriptorFromDevice,
        OperationType::ControlTransfer => USBFunction::ControlTransferEx,
        OperationType::GetConfigurationDescriptor => USBFunction::GetConfiguration,
        OperationType::Data0Packet => USBFunction::ControlTransfer,
        OperationType::Data1Packet => USBFunction::ControlTransfer,
        OperationType::OutputTransaction | OperationType::InputPacket | OperationType::InPacket
        | OperationType::InputTransaction => USBFunction::BulkOrInterruptTransfer,
        OperationType::InputReport => USBFunction::BulkOrInterruptTransfer,
        _ => USBFunction::Unknown,
    }
}

/// The operations that the tree of a capture keeps when it is limited to the
/// interesting ones: requests, transactions and data packets.
pub open spec fn is_interesting_op(op: OperationType) -> bool {
    ||| op == OperationType::GetStringDescriptor
        ||| op == OperationType::NotYetPacket
        ||| op == OperationType::InPacket
        ||| op == OperationType::CorruptedPacket
        ||| op == OperationType::PingAcknowledge
        ||| op == OperationType::PingPacket
        ||| op == OperationType::NegativeAcknowledge
        ||| op == OperationType::SetIdle
        ||| op == OperationType::InputPacket
        ||| op == OperationType::SetInterface
        ||| op == OperationType::GetHubDescriptor
        ||| op == OperationType::SetupTransaction
        ||| op == OperationType::SetPortFeature
        ||| op == OperationType::OutputTransaction
        ||| op == OperationType::AcknowledgePacket
        ||| op == OperationType::Data1Packet
        ||| op == OperationType::SetOutputReport
        ||| op == OperationType::GetHubStatus
        ||| op == OperationType::OutputDataNegativeAcknowledge
        ||| op == OperationType::InputReport
        ||| op == OperationType::ClearPortFeature
        ||| op == OperationType::HubStatus
        ||| op == OperationType::SetAddress
        ||| op == OperationType::InputNegativeAcknowledge
        ||| op == OperationType::GetPortStatus
        ||| op == OperationType::GetDeviceDescriptor
        ||| op == OperationType::GetDeviceStatus
        ||| op == OperationType::GetReportDescriptor
        ||| op == OperationType::InputTransaction
        ||| op == OperationType::ControlTransfer
        ||| op == OperationType::GetDeviceQualifierDescriptor
        ||| op == OperationType::SetConfiguration
        ||| op == OperationType::Data0Packet
        ||| op == OperationType::OutputPacket
        ||| op == OperationType::GetConfigurationDescriptor
        ||| op == OperationType::SetupPacket
}

fn is_interesting_operation(op: OperationType) -> (b: bool)
    ensures
        b == is_interesting_op(op),
{
    let interesting: Vec<OperationType> = vec![
            OperationType::GetStringDescriptor,
            OperationType::NotYetPacket,
            OperationType::InPacket,
            OperationType::CorruptedPacket,
            OperationType::PingAcknowledge,
            OperationType::PingPacket,
            OperationType::NegativeAcknowledge,
            OperationType::SetIdle,
            OperationType::InputPacket,
            OperationType::SetInterface,
            OperationType::GetHubDescriptor,
            OperationType::SetupTransaction,
            OperationType::SetPortFeature,
            OperationType::OutputTransaction,
            OperationType::AcknowledgePacket,
            OperationType::Data1Packet,
            OperationType::SetOutputReport,
            OperationType::GetHubStatus,
            OperationType::OutputDataNegativeAcknowledge,
            OperationType::InputReport,
            OperationType::ClearPortFeature,
            OperationType::HubStatus,
            OperationType::SetAddress,
            OperationType::InputNegativeAcknowledge,
            OperationType::GetPortStatus,
            OperationType::GetDeviceDescriptor,
            OperationType::GetDeviceStatus,
            OperationType::GetReportDescriptor,
            OperationType::InputTransaction,
            OperationType::ControlTransfer,
            OperationType::GetDeviceQualifierDescriptor,
            OperationType::SetConfiguration,
            OperationType::Data0Packet,
            OperationType::OutputPacket,
            OperationType::GetConfigurationDescriptor,
            OperationType::SetupPacket
        ];
    let mut i: usize = 0;
    while i < interesting.len()
        invariant
            i <= interesting.len(),
            forall|j: int| 0 <= j < i ==> interesting@[j] != op,
            forall|x: OperationType| #[trigger] is_interesting_op(x) <==> interesting@.contains(x),
        decreases interesting.len() - i,
    {
        if interesting[i] == op {
            assert(interesting@.contains(op));
            return true;
        }
        i = i + 1;
    }
    assert(!interesting@.contains(op));
    false
}

/// Law: the interesting-only tree keeps exactly these operations: the standard
/// and class requests, the transactions, and the token, data and handshake
/// packets listed below; every other operation is left out.
pub proof fn lemma_interesting_operations(op: OperationType)
    ensures
        is_interesting_op(op) <==> {
            // standard and class requests
            ||| op == OperationType::SetAddress
            ||| op == OperationType::GetDeviceDescriptor
            ||| op == OperationType::GetConfigurationDescriptor
            ||| op == OperationType::GetStringDescriptor
            ||| op == OperationType::GetDeviceQualifierDescriptor
            ||| op == OperationType::GetReportDescriptor
            ||| op == OperationType::GetHubDescriptor
            ||| op == OperationType::GetDeviceStatus
            ||| op == OperationType::GetHubStatus
            ||| op == OperationType::GetPortStatus
            ||| op == OperationType::SetConfiguration
            ||| op == OperationType::SetInterface
            ||| op == OperationType::SetIdle
            ||| op == OperationType::SetPortFeature
            ||| op == OperationType::ClearPortFeature
            ||| op == OperationType::SetOutputReport
            ||| op == OperationType::ControlTransfer
            ||| op == OperationType::HubStatus
            ||| op == OperationType::InputReport
            // transactions
            ||| op == OperationType::SetupTransaction
            ||| op == OperationType::InputTransaction
            ||| op == OperationType::OutputTransaction
            // token, data and handshake packets
            ||| op == OperationType::SetupPacket
            ||| op == OperationType::InputPacket
            ||| op == OperationType::OutputPacket
            ||| op == OperationType::InPacket
            ||| op == OperationType::PingPacket
            ||| op == OperationType::Data0Packet
            ||| op == OperationType::Data1Packet
            ||| op == OperationType::AcknowledgePacket
            ||| op == OperationType::NegativeAcknowledge
            ||| op == OperationType::NotYetPacket
            ||| op == OperationType::PingAcknowledge
            ||| op == OperationType::CorruptedPacket
            ||| op == OperationType::InputNegativeAcknowledge
            ||| op == OperationType::OutputDataNegativeAcknowledge
        },
{
}

/// Law: an operation that the URB export gives a known function is one of the
/// operations that the interesting-only tree keeps.
pub proof fn lemma_known_function_is_interesting(op: OperationType)
    ensures
        usb_function_spec(op) != USBFunction::Unknown ==> is_interesting_op(op),
{
}

// ----------------------------------------------------------------------------
// Time columns
// ----------------------------------------------------------------------------

/// A number column read leniently: its value, or 0 when it is not a number.
pub open spec fn number_or_zero(s: Seq<char>) -> nat {
    match parse_u64_spec(s) {
        Some(v) => v as nat,
        None => 0,
    }
}

/// The time offset of a row, `minutes:seconds.milliseconds.microseconds`, in
/// microseconds; 0 when the column does not have that shape.
pub open spec fn timestamp_value(ts: Seq<char>) -> nat {
    let parts = split_spec(ts, ':');
    if parts.len() < 2 {
        0
    } else {
        let t0 = number_or_zero(parts[0]);
        let n = split_spec(parts[1], '.');
        if n.len() < 3 {
            0
        } else {
            t0 * 1_000_000 * 60 + number_or_zero(n[0]) * 1_000_000 + number_or_zero(n[1]) * 1_000
                + number_or_zero(n[2])
        }
    }
}

fn number_or_zero_exec(s: &Vec<char>) -> (r: u64)
    ensures
        r as nat == number_or_zero(s@),
{
    match parse_u64(s) {
        Some(v) => v,
        None => 0,
    }
}

/// The time offset of a row in microseconds (see `timestamp_value`).
pub fn time_from_totalphase_timestamp(ts: &str) -> (t: u64)
    requires
        timestamp_value(ts@) <= u64::MAX,
    ensures
        t as nat == timestamp_value(ts@),
{
    let chars = chars_of(ts);
    let parts = split(&chars, ':');
    if parts.len() < 2 {
        return 0;
    }
    assert(parts@[0]@ == split_spec(ts@, ':')[0]);
    assert(parts@[1]@ == split_spec(ts@, ':')[1]);
    let t0 = number_or_zero_exec(&parts[0]);
    let n = split(&parts[1], '.');
    if n.len() < 3 {
        return 0;
    }
    assert(n@[0]@ == split_spec(parts@[1]@, '.')[0]);
    assert(n@[1]@ == split_spec(parts@[1]@, '.')[1]);
    assert(n@[2]@ == split_spec(parts@[1]@, '.')[2]);
    let n0 = number_or_zero_exec(&n[0]);
    let n1 = number_or_zero_exec(&n[1]);
    let n2 = number_or_zero_exec(&n[2]);
    ((t0 * 1_000_000) * 60) + (n0 * 1_000_000) + (n1 * 1_000) + n2
}

/// The numbers of a duration column, before its unit.
pub open spec fn duration_parts(ts: Seq<char>, unit: Seq<char>) -> Seq<Seq<char>> {
    split_spec(ts.subrange(0, ts.len() - unit.len()), '.')
}

/// The `i`-th number of a duration column, when it is a `u32`.
pub open spec fn duration_part(ts: Seq<char>, unit: Seq<char>, i: int) -> Option<u32> {
    if i < duration_parts(ts, unit).len() {
        parse_u32_spec(duration_parts(ts, unit)[i])
    } else {
        None
    }
}

/// What a duration column gives: `Some(None)` when the column is missing or
/// empty, `Some(Some(d))` for a readable duration (a plain `"<n> us"` is `n`),
/// and nothing for a column that
/// the reader rejects (an unknown unit, missing or malformed numbers, or a
/// total beyond `u32`).
pub open spec fn duration_spec(ts: Option<Seq<char>>) -> Option<Option<u64>> {
    match ts {
        None => Some(None),
        Some(t) => if t.len() == 0 {
            Some(None)
        } else if ends_with_spec(t, " s"@) {
            match (
                duration_part(t, " s"@, 0),
                duration_part(t, " s"@, 1),
                duration_part(t, " s"@, 2),
                duration_part(t, " s"@, 3),
            ) {
                (Some(s), Some(ms), Some(ns), Some(us)) => {
                    let total = s * 1000 * 1000 * 1000 + us + (1000 + ns) + (1000 + ms * 1000);
                    if total <= u32::MAX {
                        Some(Some(total as u64))
                    } else {
                        None
                    }
                },
                _ => None,
            }
        } else if ends_with_spec(t, " ms"@) {
            match (
                duration_part(t, " ms"@, 0),
                duration_part(t, " ms"@, 1),
                duration_part(t, " ms"@, 2),
            ) {
                (Some(ms), Some(ns), Some(us)) => {
                    let total = us + (1000 + ns) + (1000 + ms * 1000);
                    if total <= u32::MAX {
                        Some(Some(total as u64))
                    } else {
                        None
                    }
                },
                _ => None,
            }
        } else if ends_with_spec(t, " us"@) {
            if duration_parts(t, " us"@).len() == 1 {
                match duration_part(t, " us"@, 0) {
                    Some(us) => Some(Some(us as u64)),
                    None => None,
                }
            } else {
                match (duration_part(t, " us"@, 0), duration_part(t, " us"@, 1)) {
                    (Some(us), Some(ns)) => {
                        let total = us + ns * 1000;
                        if total <= u32::MAX {
                            Some(Some(total as u64))
                        } else {
                            None
                        }
                    },
                    _ => None,
                }
            }
        } else if ends_with_spec(t, " ns"@) {
            match parse_u64_spec(t.subrange(0, t.len() - 3)) {
                Some(v) => Some(Some(v)),
                None => None,
            }
        } else {
            None
        },
    }
}

/// Numbers in decimal, joined by `.`.
pub open spec fn dotted(ns: Seq<u32>) -> Seq<char>
    decreases ns.len(),
{
    if ns.len() == 0 {
        Seq::empty()
    } else if ns.len() == 1 {
        decimal_string(ns[0] as nat)
    } else {
        dotted(ns.drop_last()).push('.') + decimal_string(ns.last() as nat)
    }
}

proof fn lemma_split_dotted(ns: Seq<u32>)
    requires
        ns.len() >= 1,
    ensures
        split_spec(dotted(ns), '.') == ns.map_values(|n: u32| decimal_string(n as nat)),
        forall|i: int| 0 <= i < dotted(ns).len() ==> #[trigger] dotted(ns)[i] != ' ',
    decreases ns.len(),
{
    let last = ns.last();
    lemma_parse_decimal_string_u32(last);
    let dl = decimal_string(last as nat);
    assert(forall|i: int| 0 <= i < dl.len() ==> #[trigger] dl[i] != '.' && dl[i] != ' ') by {
        assert forall|i: int| 0 <= i < dl.len() implies #[trigger] dl[i] != '.' && dl[i] != ' ' by {
            assert(is_digit(dl[i]));
        }
    }
    if ns.len() == 1 {
        lemma_split_append_plain(Seq::<char>::empty(), dl, '.');
        assert(Seq::<char>::empty() + dl =~= dl);
        assert(Seq::<char>::empty() + dl =~= dl);
        assert(split_spec(Seq::<char>::empty(), '.') =~= seq![Seq::<char>::empty()]);
        assert(split_spec(dotted(ns), '.') =~= ns.map_values(|n: u32| decimal_string(n as nat)));
    } else {
        let init = ns.drop_last();
        lemma_split_dotted(init);
        let x = dotted(init);
        lemma_split_append_sep(x, '.');
        lemma_split_append_plain(x.push('.'), dl, '.');
        assert(Seq::<char>::empty() + dl =~= dl);
        assert(split_spec(dotted(ns), '.') =~= ns.map_values(|n: u32| decimal_string(n as nat)));
        let t = dotted(ns);
        assert forall|i: int| 0 <= i < t.len() implies #[trigger] t[i] != ' ' by {
            if i < x.len() {
                assert(t[i] == x[i]);
            } else if i > x.len() {
                assert(t[i] == dl[i - x.len() - 1]);
            }
        }
    }
}

/// The `i`-th number before a unit, read from numbers joined by `.`.
proof fn lemma_dotted_parts(ns: Seq<u32>, unit: Seq<char>)
    requires
        ns.len() >= 1,
    ensures
        duration_parts(dotted(ns) + unit, unit) == ns.map_values(|n: u32| decimal_string(n as nat)),
        forall|i: int| 0 <= i < ns.len() ==> #[trigger] duration_part(dotted(ns) + unit, unit, i) == Some(ns[i]),
        duration_part(dotted(ns) + unit, unit, ns.len() as int) is None,
{
    lemma_split_dotted(ns);
    let t = dotted(ns) + unit;
    assert(t.subrange(0, t.len() - unit.len()) =~= dotted(ns));
    assert forall|i: int| 0 <= i < ns.len() implies #[trigger] duration_part(t, unit, i) == Some(ns[i]) by {
        lemma_parse_decimal_string_u32(ns[i]);
    }
}

/// Law: a duration column reads by its unit, from the decimal numbers before
/// it: `"<n> ns"` as `n`; `"<a> us"` as `a`; `"<a>.<b> us"`
/// as `a + 1000 b`; `"<a>.<b>.<c> ms"` as `c + (1000 + b) + (1000 + 1000 a)`;
/// and `"<a>.<b>.<c>.<d> s"` as `10^9 a + d + (1000 + c) + (1000 + 1000 b)`;
/// each of the last three when its total fits in a `u32`.
pub proof fn lemma_duration_units(n: u64, a: u32, b: u32, c: u32, d: u32)
    ensures
        duration_spec(Some(decimal_string(n as nat) + " ns"@)) == Some(Some(n)),
        duration_spec(Some(dotted(seq![a]) + " us"@)) == Some(Some(a as u64)),
        a + b * 1000 <= u32::MAX ==> duration_spec(Some(dotted(seq![a, b]) + " us"@)) == Some(
            Some((a + b * 1000) as u64),
        ),
        c + (1000 + b) + (1000 + a * 1000) <= u32::MAX ==> duration_spec(
            Some(dotted(seq![a, b, c]) + " ms"@),
        ) == Some(Some((c + (1000 + b) + (1000 + a * 1000)) as u64)),
        a * 1000 * 1000 * 1000 + d + (1000 + c) + (1000 + b * 1000) <= u32::MAX ==> duration_spec(
            Some(dotted(seq![a, b, c, d]) + " s"@),
        ) == Some(Some((a * 1000 * 1000 * 1000 + d + (1000 + c) + (1000 + b * 1000)) as u64)),
{
    reveal_strlit(" s");
    reveal_strlit(" ms");
    reveal_strlit(" us");
    reveal_strlit(" ns");
    // nanoseconds
    lemma_parse_decimal_string(n);
    let tn = decimal_string(n as nat) + " ns"@;
    lemma_decimal_string_nonempty(n as nat);
    assert(tn[tn.len() - 2] == 'n');
    assert(tn.subrange(tn.len() - 3, tn.len() as int) =~= " ns"@);
    assert(tn.subrange(0, tn.len() - 3) =~= decimal_string(n as nat));
    assert(tn.subrange(tn.len() - 2, tn.len() as int) =~= seq!['n', 's']);
    assert(" s"@[0] == ' ');
    assert(!ends_with_spec(tn, " s"@));
    assert(!ends_with_spec(tn, " ms"@));
    assert(!ends_with_spec(tn, " us"@));
    // microseconds
    let s1 = seq![a];
    lemma_dotted_parts(s1, " us"@);
    let t1 = dotted(s1) + " us"@;
    assert(t1[t1.len() - 2] == 'u');
    assert(t1.subrange(t1.len() - 3, t1.len() as int) =~= " us"@);
    assert(t1.subrange(t1.len() - 2, t1.len() as int) =~= seq!['u', 's']);
    assert(" s"@[0] == ' ');
    assert(!ends_with_spec(t1, " s"@));
    assert(!ends_with_spec(t1, " ms"@));
    assert(duration_part(t1, " us"@, 0) == Some(a));
    let s2 = seq![a, b];
    lemma_dotted_parts(s2, " us"@);
    let t2 = dotted(s2) + " us"@;
    assert(t2[t2.len() - 2] == 'u');
    assert(t2.subrange(t2.len() - 3, t2.len() as int) =~= " us"@);
    assert(t2.subrange(t2.len() - 2, t2.len() as int) =~= seq!['u', 's']);
    assert(" s"@[0] == ' ');
    assert(!ends_with_spec(t2, " s"@));
    assert(!ends_with_spec(t2, " ms"@));
    assert(duration_part(t2, " us"@, 0) == Some(a));
    assert(duration_part(t2, " us"@, 1) == Some(b));
    // milliseconds
    let s3 = seq![a, b, c];
    lemma_dotted_parts(s3, " ms"@);
    let t3 = dotted(s3) + " ms"@;
    assert(t3[t3.len() - 2] == 'm');
    assert(t3.subrange(t3.len() - 3, t3.len() as int) =~= " ms"@);
    assert(t3.subrange(t3.len() - 2, t3.len() as int) =~= seq!['m', 's']);
    assert(" s"@[0] == ' ');
    assert(!ends_with_spec(t3, " s"@));
    assert(duration_part(t3, " ms"@, 0) == Some(a));
    assert(duration_part(t3, " ms"@, 1) == Some(b));
    assert(duration_part(t3, " ms"@, 2) == Some(c));
    // seconds
    let s4 = seq![a, b, c, d];
    lemma_dotted_parts(s4, " s"@);
    let t4 = dotted(s4) + " s"@;
    assert(t4.subrange(t4.len() - 2, t4.len() as int) =~= " s"@);
    assert(duration_part(t4, " s"@, 0) == Some(a));
    assert(duration_part(t4, " s"@, 1) == Some(b));
    assert(duration_part(t4, " s"@, 2) == Some(c));
    assert(duration_part(t4, " s"@, 3) == Some(d));
}

pub open spec fn opt_str_view(ts: Option<&str>) -> Option<Seq<char>> {
    match ts {
        Some(s) => Some(s@),
        None => None,
    }
}

/// How many dot-separated numbers a duration column has before its unit.
fn duration_part_count(t: &Vec<char>, unit: &str) -> (n: usize)
    requires
        ends_with_spec(t@, unit@),
    ensures
        n == duration_parts(t@, unit@).len(),
{
    let body = strip_suffix_str(t, unit).unwrap();
    let parts = split(&body, '.');
    assert(char_vecs_view(parts@) == duration_parts(t@, unit@));
    parts.len()
}

/// The duration parts of `t` before the unit `unit`, each read as a `u32`.
fn duration_numbers(t: &Vec<char>, unit: &str, count: usize) -> (r: Option<Vec<u32>>)
    requires
        ends_with_spec(t@, unit@),
    ensures
        match r {
            Some(v) => v@.len() == count && forall|i: int|
                0 <= i < count ==> duration_part(t@, unit@, i) == Some(#[trigger] v@[i]),
            None => exists|i: int| 0 <= i < count && #[trigger] duration_part(t@, unit@, i) is None,
        },
{
    let body = strip_suffix_str(t, unit).unwrap();
    let parts = split(&body, '.');
    assert(char_vecs_view(parts@) == duration_parts(t@, unit@));
    let mut out: Vec<u32> = Vec::new();
    let mut i: usize = 0;
    while i < count
        invariant
            i <= count,
            out@.len() == i,
            char_vecs_view(parts@) == duration_parts(t@, unit@),
            forall|j: int| 0 <= j < i ==> duration_part(t@, unit@, j) == Some(#[trigger] out@[j]),
        decreases count - i,
    {
        if i >= parts.len() {
            assert(duration_part(t@, unit@, i as int) is None);
            return None;
        }
        assert(parts@[i as int]@ == duration_parts(t@, unit@)[i as int]);
        match parse_u32(&parts[i]) {
            Some(v) => {
                out.push(v);
            },
            None => {
                assert(duration_part(t@, unit@, i as int) is None);
                return None;
            },
        }
        i = i + 1;
    }
    Some(out)
}

/// The duration of a row (see `duration_spec`).
pub fn duration_from_totalphase_duration(ts: Option<&str>) -> (d: Option<u64>)
    requires
        duration_spec(opt_str_view(ts)) is Some,
    ensures
        Some(d) == duration_spec(opt_str_view(ts)),
{
    if let Some(ts) = ts {
        let t = chars_of(ts);
        if t.len() == 0 {
            return None;
        } else if ends_with_str(&t, " s") {
            let parts = duration_numbers(&t, " s", 4).unwrap();
            let s_part: u32 = parts[0];
            let ms_part: u32 = parts[1];
            let ns_part: u32 = parts[2];
            let us_part: u32 = parts[3];
            let total: u64 = ((s_part * 1000 * 1000 * 1000) + us_part + (1000 + ns_part) + (1000
                + ms_part * 1000)) as u64;
            return Some(total);
        } else if ends_with_str(&t, " ms") {
            let parts = duration_numbers(&t, " ms", 3).unwrap();
            let ms_part: u32 = parts[0];
            let ns_part: u32 = parts[1];
            let us_part: u32 = parts[2];
            let total: u64 = (us_part + (1000 + ns_part) + (1000 + ms_part * 1000)) as u64;
            return Some(total);
        } else if ends_with_str(&t, " us") {
            if duration_part_count(&t, " us") == 1 {
                let parts = duration_numbers(&t, " us", 1).unwrap();
                return Some(parts[0] as u64);
            }
            let parts = duration_numbers(&t, " us", 2).unwrap();
            let us_part: u32 = parts[0];
            let ns_part: u32 = parts[1];
            let total: u64 = (us_part + (ns_part * 1000)) as u64;
            return Some(total);
        } else if ends_with_str(&t, " ns") {
            let body = strip_suffix_str(&t, " ns").unwrap();
            proof {
                reveal_strlit(" ns");
            }
            let result: u64 = parse_u64(&body).unwrap();
            return Some(result);
        }
        proof {
            assert(false);
        }
        None
    } else {
        None
    }
}

/// The duration of a row, or nothing where the reader rejects the column
/// (see `duration_spec`).
pub fn duration_checked(ts: Option<&str>) -> (d: Option<Option<u64>>)
    ensures
        d == duration_spec(opt_str_view(ts)),
{
    if let Some(ts) = ts {
        let t = chars_of(ts);
        if t.len() == 0 {
            Some(None)
        } else if ends_with_str(&t, " s") {
            match duration_numbers(&t, " s", 4) {
                Some(parts) => {
                    let total: u64 = (parts[0] as u64) * 1000 * 1000 * 1000 + (parts[3] as u64) + (
                    1000 + parts[2] as u64) + (1000 + (parts[1] as u64) * 1000);
                    if total <= u32::MAX as u64 {
                        Some(Some(total))
                    } else {
                        None
                    }
                },
                None => None,
            }
        } else if ends_with_str(&t, " ms") {
            match duration_numbers(&t, " ms", 3) {
                Some(parts) => {
                    let total: u64 = (parts[2] as u64) + (1000 + parts[1] as u64) + (1000 + (
                    parts[0] as u64) * 1000);
                    if total <= u32::MAX as u64 {
                        Some(Some(total))
                    } else {
                        None
                    }
                },
                None => None,
            }
        } else if ends_with_str(&t, " us") && duration_part_count(&t, " us") == 1 {
            match duration_numbers(&t, " us", 1) {
                Some(parts) => Some(Some(parts[0] as u64)),
                None => None,
            }
        } else if ends_with_str(&t, " us") {
            match duration_numbers(&t, " us", 2) {
                Some(parts) => {
                    let total: u64 = (parts[0] as u64) + (parts[1] as u64) * 1000;
                    if total <= u32::MAX as u64 {
                        Some(Some(total))
                    } else {
                        None
                    }
                },
                None => None,
            }
        } else if ends_with_str(&t, " ns") {
            let body = strip_suffix_str(&t, " ns").unwrap();
            proof {
                reveal_strlit(" ns");
            }
            match parse_u64(&body) {
                Some(v) => Some(Some(v)),
                None => None,
            }
        } else {
            None
        }
    } else {
        Some(None)
    }
}

/// The four numbers of a time offset `minutes:seconds.milliseconds.microseconds`,
/// when the column has that shape and each is a number.
pub open spec fn timestamp_fields(ts: Seq<char>) -> Option<(u64, u64, u64, u64)> {
    let parts = split_spec(ts, ':');
    if parts.len() < 2 {
        None
    } else {
        let n = split_spec(parts[1], '.');
        if n.len() < 3 {
            None
        } else {
            match (
                parse_u64_spec(parts[0]),
                parse_u64_spec(n[0]),
                parse_u64_spec(n[1]),
                parse_u64_spec(n[2]),
            ) {
                (Some(a), Some(b), Some(c), Some(d)) => Some((a, b, c, d)),
                _ => None,
            }
        }
    }
}

/// Seconds below 60, milliseconds and microseconds below 1000.
pub open spec fn timestamp_fields_in_range(f: (u64, u64, u64, u64)) -> bool {
    f.1 < 60 && f.2 < 1000 && f.3 < 1000
}

/// Lexicographic order of time offset fields, minutes first.
pub open spec fn timestamp_fields_less(f: (u64, u64, u64, u64), g: (u64, u64, u64, u64)) -> bool {
    ||| f.0 < g.0
    ||| f.0 == g.0 && f.1 < g.1
    ||| f.0 == g.0 && f.1 == g.1 && f.2 < g.2
    ||| f.0 == g.0 && f.1 == g.1 && f.2 == g.2 && f.3 < g.3
}

/// Law: time offsets whose seconds, milliseconds and microseconds are in range
/// read as values that order as their fields do, minutes first, and are equal
/// exactly when their fields are.
pub proof fn lemma_timestamp_order(ts1: Seq<char>, ts2: Seq<char>)
    requires
        timestamp_fields(ts1) is Some,
        timestamp_fields(ts2) is Some,
        timestamp_fields_in_range(timestamp_fields(ts1).unwrap()),
        timestamp_fields_in_range(timestamp_fields(ts2).unwrap()),
    ensures
        timestamp_value(ts1) < timestamp_value(ts2) <==> timestamp_fields_less(
            timestamp_fields(ts1).unwrap(),
            timestamp_fields(ts2).unwrap(),
        ),
        timestamp_value(ts1) == timestamp_value(ts2) <==> timestamp_fields(ts1)
            == timestamp_fields(ts2),
{
    let f = timestamp_fields(ts1).unwrap();
    let g = timestamp_fields(ts2).unwrap();
    let (a1, b1, c1, d1) = (f.0 as int, f.1 as int, f.2 as int, f.3 as int);
    let (a2, b2, c2, d2) = (g.0 as int, g.1 as int, g.2 as int, g.3 as int);
    assert(timestamp_value(ts1) == a1 * 60_000_000 + b1 * 1_000_000 + c1 * 1_000 + d1);
    assert(timestamp_value(ts2) == a2 * 60_000_000 + b2 * 1_000_000 + c2 * 1_000 + d2);
    assert(a1 * 60_000_000 + b1 * 1_000_000 + c1 * 1_000 + d1 < a2 * 60_000_000 + b2 * 1_000_000
        + c2 * 1_000 + d2 <==> timestamp_fields_less(f, g)) by (nonlinear_arith)
        requires
            0 <= a1, 0 <= a2, 0 <= b1 < 60, 0 <= b2 < 60, 0 <= c1 < 1000, 0 <= c2 < 1000,
            0 <= d1 < 1000, 0 <= d2 < 1000,
            a1 == f.0, a2 == g.0, b1 == f.1, b2 == g.1, c1 == f.2, c2 == g.2, d1 == f.3, d2 == g.3,
    ;
    assert(a1 * 60_000_000 + b1 * 1_000_000 + c1 * 1_000 + d1 == a2 * 60_000_000 + b2 * 1_000_000
        + c2 * 1_000 + d2 <==> (a1 == a2 && b1 == b2 && c1 == c2 && d1 == d2)) by (nonlinear_arith)
        requires
            0 <= a1, 0 <= a2, 0 <= b1 < 60, 0 <= b2 < 60, 0 <= c1 < 1000, 0 <= c2 < 1000,
            0 <= d1 < 1000, 0 <= d2 < 1000,
    ;
}

/// Whether the time offset of a row fits in a `u64` (see `timestamp_value`).
pub fn timestamp_fits(ts: &str) -> (b: bool)
    ensures
        b == (timestamp_value(ts@) <= u64::MAX),
{
    let chars = chars_of(ts);
    let parts = split(&chars, ':');
    if parts.len() < 2 {
        return true;
    }
    assert(parts@[0]@ == split_spec(ts@, ':')[0]);
    assert(parts@[1]@ == split_spec(ts@, ':')[1]);
    let t0 = number_or_zero_exec(&parts[0]) as u128;
    let n = split(&parts[1], '.');
    if n.len() < 3 {
        return true;
    }
    assert(n@[0]@ == split_spec(parts@[1]@, '.')[0]);
    assert(n@[1]@ == split_spec(parts@[1]@, '.')[1]);
    assert(n@[2]@ == split_spec(parts@[1]@, '.')[2]);
    let n0 = number_or_zero_exec(&n[0]) as u128;
    let n1 = number_or_zero_exec(&n[1]) as u128;
    let n2 = number_or_zero_exec(&n[2]) as u128;
    let total: u128 = t0 * 1_000_000 * 60 + n0 * 1_000_000 + n1 * 1_000 + n2;
    total <= u64::MAX as u128
}

// ----------------------------------------------------------------------------
// Rows of the capture
// ----------------------------------------------------------------------------

pub type DeviceId = u8;

pub type EndpointId = u8;

/// The contents of a data column.
pub enum DataModel {
    NoData,
    PartialData(Seq<u8>),
    Data(Seq<u8>),
}

impl View for DataRecord {
    type V = DataModel;

    open spec fn view(&self) -> DataModel {
        match self {
            DataRecord::NoData => DataModel::NoData,
            DataRecord::PartialData(v) => DataModel::PartialData(v@),
            DataRecord::Data(v) => DataModel::Data(v@),
        }
    }
}

/// One row of the capture: a packet, transaction or event, with the data that
/// the binary file holds for it.
#[derive(Debug)]
pub struct USBPacket<'a> {
    pub level: u8,
    pub index: u64,
    pub device_id: Option<DeviceId>,
    pub endpoint_id: Option<EndpointId>,
    pub operation: OperationType,
    pub length: Option<u64>,
    pub timestamp: u64,
    pub duration_us: Option<u64>,
    pub error: Option<PacketError>,
    pub extra: Option<String>,
    pub short_data: DataRecord,
    pub data: Option<Vec<u8>>,
    pub summary: String,
    pub stall: bool,
    pub speed: USBSpeed,
    pub data_offset: Option<u64>,
    pub children: Vec<&'a USBPacket<'a>>,
}

/// What a row holds, as plain values.
pub struct PacketModel {
    pub level: u8,
    pub index: u64,
    pub device_id: Option<u8>,
    pub endpoint_id: Option<u8>,
    pub operation: OperationType,
    pub length: Option<u64>,
    pub timestamp: u64,
    pub duration_us: Option<u64>,
    pub has_error: bool,
    pub extra: Option<Seq<char>>,
    pub short_data: DataModel,
    pub data: Option<Seq<u8>>,
    pub summary: Seq<char>,
    pub stall: bool,
    pub speed: USBSpeed,
    pub data_offset: Option<u64>,
    pub child_count: nat,
}

pub open spec fn opt_string_view(s: Option<String>) -> Option<Seq<char>> {
    match s {
        Some(x) => Some(x@),
        None => None,
    }
}

pub open spec fn opt_bytes_view(v: Option<Vec<u8>>) -> Option<Seq<u8>> {
    match v {
        Some(x) => Some(x@),
        None => None,
    }
}

impl<'a> View for USBPacket<'a> {
    type V = PacketModel;

    open spec fn view(&self) -> PacketModel {
        PacketModel {
            level: self.level,
            index: self.index,
            device_id: self.device_id,
            endpoint_id: self.endpoint_id,
            operation: self.operation,
            length: self.length,
            timestamp: self.timestamp,
            duration_us: self.duration_us,
            has_error: self.error is Some,
            extra: opt_string_view(self.extra),
            short_data: self.short_data@,
            data: opt_bytes_view(self.data),
            summary: self.summary@,
            stall: self.stall,
            speed: self.speed,
            data_offset: self.data_offset,
            child_count: self.children@.len(),
        }
    }
}

/// The columns of a CSV row.
pub open spec fn record_view(r: Seq<String>) -> Seq<Seq<char>> {
    r.map_values(|s: String| s@)
}

/// Column `i` of a row, if the row has it.
pub open spec fn column(r: Seq<Seq<char>>, i: int) -> Option<Seq<char>> {
    if 0 <= i < r.len() {
        Some(r[i])
    } else {
        None
    }
}

/// The bus speed column.
pub open spec fn speed_spec(r: Seq<Seq<char>>) -> USBSpeed {
    match column(r, 1) {
        Some(s) => if s == "LS"@ {
            USBSpeed::SpeedLow
        } else if s == "FS"@ {
            USBSpeed::SpeedLow
        } else if s == "HS"@ {
            USBSpeed::SpeedHigh
        } else if s == "SS"@ {
            USBSpeed::SpeedSuper
        } else {
            USBSpeed::SpeedUnknown
        },
        None => USBSpeed::SpeedUnknown,
    }
}

/// Law: the speed column reads "LS" and "FS" as low speed, "HS" as high speed
/// and "SS" as super speed; anything else, or no column, as an unknown speed.
pub proof fn lemma_speed_names(r: Seq<Seq<char>>)
    ensures
        column(r, 1) == Some("LS"@) ==> speed_spec(r) == USBSpeed::SpeedLow,
        column(r, 1) == Some("FS"@) ==> speed_spec(r) == USBSpeed::SpeedLow,
        column(r, 1) == Some("HS"@) ==> speed_spec(r) == USBSpeed::SpeedHigh,
        column(r, 1) == Some("SS"@) ==> speed_spec(r) == USBSpeed::SpeedSuper,
        column(r, 1) != Some("LS"@) && column(r, 1) != Some("FS"@) && column(r, 1) != Some("HS"@)
            && column(r, 1) != Some("SS"@) ==> speed_spec(r) == USBSpeed::SpeedUnknown,
{
    reveal_strlit("LS");
    reveal_strlit("FS");
    reveal_strlit("HS");
    reveal_strlit("SS");
    assert("LS"@[0] == 'L');
    assert("FS"@[0] == 'F');
    assert("HS"@[0] == 'H');
    assert("SS"@[0] == 'S');
}

/// The length column, `"<n> B"`: `Some(None)` when missing or empty, `Some(Some(n))`
/// when readable, nothing when the reader rejects it.
pub open spec fn length_spec(r: Seq<Seq<char>>) -> Option<Option<u64>> {
    match column(r, 5) {
        None => Some(None),
        Some(s) => if s.len() == 0 {
            Some(None)
        } else {
            match strip_suffix_spec(s, " B"@) {
                Some(b) => match parse_u64_spec(b) {
                    Some(v) => Some(Some(v)),
                    None => None,
                },
                None => None,
            }
        },
    }
}

/// The operation column names extra information in brackets.
pub open spec fn has_brackets(s: Seq<char>) -> bool {
    contains_spec(s, "["@) && contains_spec(s, "]"@)
}

/// The bracketed part of the operation column: `Some(None)` when there is none,
/// nothing when the part after the first `[` does not end with `]`.
pub open spec fn extra_spec(s: Seq<char>) -> Option<Option<Seq<char>>> {
    if has_brackets(s) && split_spec(s, '[').len() > 1 {
        match strip_suffix_spec(trim_spec(split_spec(s, '[')[1]), "]"@) {
            Some(x) => Some(Some(trim_spec(x))),
            None => None,
        }
    } else {
        Some(None)
    }
}

/// The operation name before any bracketed part, trimmed.
pub open spec fn raw_operation_name(s: Seq<char>) -> Seq<char> {
    if has_brackets(s) {
        trim_spec(split_spec(s, '[')[0])
    } else {
        trim_spec(s)
    }
}

/// The operation name with any `(STALL)` marker removed.
pub open spec fn operation_name(s: Seq<char>) -> Seq<char> {
    trim_spec(remove_all_spec(raw_operation_name(s), "(STALL)"@))
}

/// The data column: absent or empty gives no data, a trailing `...` marks
/// data the export cut short; the digits are hexadecimal with spaces between.
pub open spec fn short_data_spec(r: Seq<Seq<char>>) -> DataModel {
    match column(r, 10) {
        None => DataModel::NoData,
        Some(d) => if d.len() == 0 {
            DataModel::NoData
        } else if ends_with_spec(d, "..."@) {
            DataModel::PartialData(
                hex_or_empty(strip_suffix_spec(remove_all_spec(d, " "@), "..."@).unwrap()),
            )
        } else {
            DataModel::Data(hex_or_empty(remove_all_spec(d, " "@)))
        },
    }
}

/// A row that the reader accepts, at data offset `offset` of a binary file of
/// `bin_len` bytes: every column it reads exists and is well formed, and the
/// data it announces lies inside the binary file.
pub open spec fn record_ok(r: Seq<Seq<char>>, offset: nat, bin_len: nat) -> bool {
    &&& r.len() >= 12
    &&& parse_u8_spec(r[0]) is Some
    &&& parse_u64_spec(r[2]) is Some
    &&& timestamp_value(r[3]) <= u64::MAX
    &&& duration_spec(column(r, 4)) is Some
    &&& length_spec(r) is Some
    &&& extra_spec(r[9]) is Some
    &&& operation_type_spec(operation_name(r[9])) is Some
    &&& (length_spec(r).unwrap() matches Some(len) ==> offset + len <= bin_len)
}

/// The packet that a row gives at data offset `offset` of the binary file `bin`.
pub open spec fn packet_spec(r: Seq<Seq<char>>, offset: u64, bin: Seq<u8>) -> PacketModel {
    let length = length_spec(r).unwrap();
    let operation = operation_type_spec(operation_name(r[9])).unwrap();
    PacketModel {
        level: parse_u8_spec(r[0]).unwrap(),
        index: parse_u64_spec(r[2]).unwrap(),
        device_id: parse_u8_spec(r[7]),
        endpoint_id: parse_u8_spec(r[8]),
        operation,
        length,
        timestamp: timestamp_value(r[3]) as u64,
        duration_us: duration_spec(column(r, 4)).unwrap(),
        has_error: false,
        extra: extra_spec(r[9]).unwrap(),
        short_data: short_data_spec(r),
        data: Some(
            match length {
                Some(len) => bin.subrange(offset as int, offset + len),
                None => Seq::<u8>::empty(),
            },
        ),
        summary: r[11],
        stall: contains_spec(raw_operation_name(r[9]), "(STALL)"@) || operation
            == OperationType::StallPacket,
        speed: speed_spec(r),
        data_offset: match length {
            Some(_) => Some(offset),
            None => None,
        },
        child_count: 0,
    }
}

/// Law: a packet reads its level from the first column, its index from the
/// third, its device and endpoint from the eighth and ninth (nothing when they
/// are not numbers) and its summary from the twelfth; a row with a length has
/// its data offset at the given offset and its data is that many bytes of the
/// binary file from there; a row without one has no offset and no bytes.
pub proof fn lemma_packet_columns(r: Seq<Seq<char>>, offset: u64, bin: Seq<u8>)
    requires
        record_ok(r, offset as nat, bin.len()),
    ensures
        ({
            let p = packet_spec(r, offset, bin);
            &&& Some(p.level) == parse_u8_spec(r[0])
            &&& Some(p.index) == parse_u64_spec(r[2])
            &&& p.device_id == parse_u8_spec(r[7])
            &&& p.endpoint_id == parse_u8_spec(r[8])
            &&& p.summary == r[11]
            &&& p.timestamp == timestamp_value(r[3])
            &&& (p.length matches Some(len) ==> {
                &&& p.data_offset == Some(offset)
                &&& p.data == Some(bin.subrange(offset as int, offset + len))
                &&& p.data.unwrap().len() == len
            })
            &&& (p.length is None ==> p.data_offset is None && p.data == Some(Seq::<u8>::empty()))
            &&& !p.has_error
            &&& p.child_count == 0
        }),
{
}

/// Law: a packet is marked as stalled exactly when its operation name carries
/// a `(STALL)` marker or its operation is a STALL packet.
pub proof fn lemma_stall_flag(r: Seq<Seq<char>>, offset: u64, bin: Seq<u8>)
    ensures
        packet_spec(r, offset, bin).operation == OperationType::StallPacket ==> packet_spec(
            r,
            offset,
            bin,
        ).stall,
        contains_spec(raw_operation_name(r[9]), "(STALL)"@) ==> packet_spec(r, offset, bin).stall,
        packet_spec(r, offset, bin).stall ==> (contains_spec(raw_operation_name(r[9]), "(STALL)"@)
            || packet_spec(r, offset, bin).operation == OperationType::StallPacket),
{
}

/// The characters of column `i`.
fn column_chars(record: &Vec<String>, i: usize) -> (c: Vec<char>)
    requires
        i < record.len(),
    ensures
        c@ == record_view(record@)[i as int],
{
    chars_of(record[i].as_str())
}

fn speed_of(record: &Vec<String>) -> (s: USBSpeed)
    ensures
        s == speed_spec(record_view(record@)),
{
    if record.len() <= 1 {
        return USBSpeed::SpeedUnknown;
    }
    let c = column_chars(record, 1);
    if eq_str(&c, "LS") {
        USBSpeed::SpeedLow
    } else if eq_str(&c, "FS") {
        USBSpeed::SpeedLow
    } else if eq_str(&c, "HS") {
        USBSpeed::SpeedHigh
    } else if eq_str(&c, "SS") {
        USBSpeed::SpeedSuper
    } else {
        USBSpeed::SpeedUnknown
    }
}

fn length_checked(record: &Vec<String>) -> (l: Option<Option<u64>>)
    ensures
        l == length_spec(record_view(record@)),
{
    if record.len() <= 5 {
        return Some(None);
    }
    let c = column_chars(record, 5);
    if c.len() == 0 {
        Some(None)
    } else {
        match strip_suffix_str(&c, " B") {
            Some(b) => match parse_u64(&b) {
                Some(v) => Some(Some(v)),
                None => None,
            },
            None => None,
        }
    }
}

fn length_of(record: &Vec<String>) -> (l: Option<u64>)
    requires
        length_spec(record_view(record@)) is Some,
    ensures
        Some(l) == length_spec(record_view(record@)),
{
    length_checked(record).unwrap()
}

/// Whether the operation column is readable: its bracketed part, if any, ends
/// with `]`, and the operation name is known.
fn operation_column_ok(s: &Vec<char>) -> (b: bool)
    ensures
        b == (extra_spec(s@) is Some && operation_type_spec(operation_name(s@)) is Some),
{
    let brackets = contains_str(s, "[") && contains_str(s, "]");
    let raw_name: Vec<char> = if brackets {
        let parts = split(s, '[');
        proof {
            lemma_split_nonempty(s@, '[');
        }
        if parts.len() > 1 {
            if strip_suffix_str(&trim(&parts[1]), "]").is_none() {
                return false;
            }
        }
        trim(&parts[0])
    } else {
        trim(s)
    };
    proof {
        reveal_strlit("(STALL)");
    }
    let name = trim(&remove_all_str(&raw_name, "(STALL)"));
    operation_type_of(&name).is_some()
}

/// Whether the reader accepts a row at data offset `offset` of a binary file
/// of `bin_len` bytes (see `record_ok`).
pub fn record_readable(record: &Vec<String>, offset: u64, bin_len: usize) -> (b: bool)
    ensures
        b == record_ok(record_view(record@), offset as nat, bin_len as nat),
{
    if record.len() < 12 {
        return false;
    }
    if parse_u8(&column_chars(record, 0)).is_none() || parse_u64(&column_chars(record, 2)).is_none() {
        return false;
    }
    if !timestamp_fits(record[3].as_str()) {
        return false;
    }
    if duration_checked(Some(record[4].as_str())).is_none() {
        return false;
    }
    if !operation_column_ok(&column_chars(record, 9)) {
        return false;
    }
    match length_checked(record) {
        None => false,
        Some(None) => true,
        Some(Some(len)) => (len as u128) + (offset as u128) <= bin_len as u128,
    }
}

fn short_data_of(record: &Vec<String>) -> (d: DataRecord)
    ensures
        d@ == short_data_spec(record_view(record@)),
{
    if record.len() <= 10 {
        return DataRecord::NoData;
    }
    let c = column_chars(record, 10);
    if c.len() == 0 {
        DataRecord::NoData
    } else if ends_with_str(&c, "...") {
        proof {
            lemma_remove_spaces_keeps_ellipsis(c@);
            reveal_strlit(" ");
        }
        let cleaned = remove_all_str(&c, " ");
        let digits = strip_suffix_str(&cleaned, "...").unwrap();
        let text = string_of(digits.as_slice());
        DataRecord::PartialData(decode_or_empty(text.as_str()))
    } else {
        proof {
            reveal_strlit(" ");
        }
        let cleaned = remove_all_str(&c, " ");
        let text = string_of(cleaned.as_slice());
        DataRecord::Data(decode_or_empty(text.as_str()))
    }
}

/// The bytes `bin[from..from + len]`.
fn copy_range(bin: &Vec<u8>, from: u64, len: u64) -> (r: Vec<u8>)
    requires
        from + len <= bin.len(),
    ensures
        r@ == bin@.subrange(from as int, from + len),
{
    let start = from as usize;
    let end = (from + len) as usize;
    let mut r: Vec<u8> = Vec::new();
    let mut i: usize = start;
    while i < end
        invariant
            start <= i <= end <= bin.len(),
            start == from,
            end == from + len,
            r@ == bin@.subrange(start as int, i as int),
        decreases end - i,
    {
        r.push(bin[i]);
        i = i + 1;
        assert(r@ =~= bin@.subrange(start as int, i as int));
    }
    r
}

impl<'a> USBPacket<'a> {
    /// The packet that a row of the capture describes. `current_offset` is where
    /// the row's data starts in the binary file `binary`.
    pub fn new(record: &Vec<String>, current_offset: u64, binary: &Vec<u8>) -> (p: Self)
        requires
            record_ok(record_view(record@), current_offset as nat, binary@.len()),
        ensures
            p@ == packet_spec(record_view(record@), current_offset, binary@),
    {
        let ghost r = record_view(record@);
        // First column is the level, this indicates if the record is nested below the prior record
        let level: u8 = parse_u8(&column_chars(record, 0)).unwrap();
        // Next is the speed, this may or may not exist in some rows
        let speed = speed_of(record);
        // The index of the packet in total ordering
        let index: u64 = parse_u64(&column_chars(record, 2)).unwrap();
        // The time offset in minutes:seconds.milliseconds.microseconds
        let timestamp = time_from_totalphase_timestamp(record[3].as_str());
        // Duration in either "XX us" or "XXX.YYY.ZZZ us"
        let duration_us = duration_from_totalphase_duration(Some(record[4].as_str()));
        let length = length_of(record);
        let error: Option<PacketError> = None;
        let device_id: Option<DeviceId> = parse_u8(&column_chars(record, 7));
        let endpoint_id: Option<EndpointId> = parse_u8(&column_chars(record, 8));

        let operation_string = column_chars(record, 9);
        let mut extra: Option<String> = None;
        let raw_name: Vec<char> = if contains_str(&operation_string, "[") && contains_str(
            &operation_string,
            "]",
        ) {
            let parts = split(&operation_string, '[');
            proof {
                lemma_split_nonempty(operation_string@, '[');
            }
            if parts.len() > 1 {
                let inner = strip_suffix_str(&trim(&parts[1]), "]").unwrap();
                extra = Some(string_of(trim(&inner).as_slice()));
            } else {
                extra = None;
            }
            trim(&parts[0])
        } else {
            trim(&operation_string)
        };
        let mut stall = contains_str(&raw_name, "(STALL)");
        proof {
            reveal_strlit("(STALL)");
        }
        let operation_name = trim(&remove_all_str(&raw_name, "(STALL)"));
        let operation = operation_to_operation_type(string_of(operation_name.as_slice()));
        if operation == OperationType::StallPacket {
            stall = true;
        }

        // Data parsing rules, if nothing then nothing, if ends with "..." then partial, otherwise data
        let short_data = short_data_of(record);
        let summary = string_of(column_chars(record, 11).as_slice());
        let data_offset = match length {
            None => None,
            Some(_) => Some(current_offset),
        };
        let children: Vec<&USBPacket> = Vec::new();
        let data = match length {
            Some(len) => Some(copy_range(binary, current_offset, len)),
            None => Some(Vec::new()),
        };
        USBPacket {
            level,
            index,
            speed,
            device_id,
            endpoint_id,
            timestamp,
            short_data,
            duration_us,
            length,
            error,
            extra,
            summary,
            data_offset,
            children,
            stall,
            operation,
            data,
        }
    }

    /// Records `child` as a child of this packet.
    pub fn add_child(&mut self, child: &'a USBPacket<'a>)
        ensures
            final(self)@ == (PacketModel { child_count: old(self)@.child_count + 1, ..old(self)@ }),
            final(self).children@ == old(self).children@.push(child),
    {
        self.children.push(child);
    }

    /// A packet whose operation the interesting-only tree keeps.
    pub fn is_interesting(&self) -> (b: bool)
        ensures
            b == is_interesting_op(self.operation),
    {
        is_interesting_operation(self.operation)
    }
}

// ----------------------------------------------------------------------------
// Whole captures
// ----------------------------------------------------------------------------

/// The rows of a capture.
pub open spec fn records_view(rs: Seq<Vec<String>>) -> Seq<Seq<Seq<char>>> {
    rs.map_values(|r: Vec<String>| record_view(r@))
}

/// How many bytes of the binary file a row takes: its length, or nothing.
pub open spec fn length_value(r: Seq<Seq<char>>) -> nat {
    match length_spec(r) {
        Some(Some(v)) => v as nat,
        _ => 0,
    }
}

/// Where the data of row `i` starts in the binary file: the rows' data lie
/// back to back, so this is the total length of the rows before it.
pub open spec fn offset_at(rs: Seq<Seq<Seq<char>>>, i: nat) -> nat
    decreases i,
{
    if i == 0 {
        0
    } else {
        offset_at(rs, (i - 1) as nat) + length_value(rs[i - 1])
    }
}

/// Every row is accepted at its data offset in a binary file of `bin_len` bytes.
pub open spec fn records_ok(rs: Seq<Seq<Seq<char>>>, bin_len: nat) -> bool {
    forall|i: nat| i < rs.len() ==> #[trigger] record_ok(rs[i as int], offset_at(rs, i), bin_len)
}

/// The packets of a capture, row by row.
pub open spec fn packet_models(rs: Seq<Seq<Seq<char>>>, bin: Seq<u8>) -> Seq<PacketModel> {
    Seq::new(rs.len(), |i: int| packet_spec(rs[i], offset_at(rs, i as nat) as u64, bin))
}

/// `s` without the suffix `p`, or `s` itself when it does not end with `p`.
pub open spec fn without_suffix(s: Seq<char>, p: Seq<char>) -> Seq<char> {
    match strip_suffix_spec(s, p) {
        Some(t) => t,
        None => s,
    }
}

/// The base name of a capture given by one of its files: a trailing `.csv` is
/// removed, then a trailing `.bin`.
pub open spec fn capture_base_spec(path: Seq<char>) -> Seq<char> {
    without_suffix(without_suffix(path, ".csv"@), ".bin"@)
}

/// The base name of a capture given by the name of one of its files.
pub fn capture_base_name(path: &str) -> (base: String)
    ensures
        base@ == capture_base_spec(path@),
{
    let c = chars_of(path);
    let c = match strip_suffix_str(&c, ".csv") {
        Some(t) => t,
        None => c,
    };
    let c = match strip_suffix_str(&c, ".bin") {
        Some(t) => t,
        None => c,
    };
    string_of(c.as_slice())
}

/// A Total Phase capture: the rows of its CSV export (after the preamble) and
/// the contents of its binary data file.
pub struct TotalPhaseReader {
    csv_path: String,
    bin_path: String,
    records: Vec<Vec<String>>,
    error: Option<String>,
    after: Vec<Result<Vec<String>, String>>,
    binary: Vec<u8>,
}

/// `a` followed by `b`.
fn concat_str(a: &str, b: &str) -> (s: String)
    ensures
        s@ == a@ + b@,
{
    let mut v = chars_of(a);
    let w = chars_of(b);
    let mut i: usize = 0;
    let ghost start = v@;
    while i < w.len()
        invariant
            i <= w.len(),
            v@ == start + w@.subrange(0, i as int),
        decreases w.len() - i,
    {
        v.push(w[i]);
        i = i + 1;
        assert(v@ =~= start + w@.subrange(0, i as int));
    }
    assert(w@.subrange(0, w.len() as int) =~= w@);
    string_of(v.as_slice())
}

impl TotalPhaseReader {
    /// A capture named `file_basename` (its files are `<name>.csv` and
    /// `<name>.bin`), with the rows and binary data read from them.
    pub fn new(file_basename: &str, records: Vec<Vec<String>>, binary: Vec<u8>) -> (r: Self)
        ensures
            r.csv_path()@ == file_basename@ + ".csv"@,
            r.bin_path()@ == file_basename@ + ".bin"@,
            r.records() == records,
            r.csv_error() is None,
            r.results() == ok_results(records_view(records@)),
            r.binary() == binary,
    {
        let bin_path = concat_str(file_basename, ".bin");
        let csv_path = concat_str(file_basename, ".csv");
        let r = TotalPhaseReader {
            bin_path,
            csv_path,
            records,
            error: None,
            after: Vec::new(),
            binary,
        };
        assert(r.results() =~= ok_results(records_view(r.records@)));
        r
    }

    /// A capture named `file_basename`, from the text of its CSV export and the
    /// contents of its binary file: the six lines of preamble are skipped and
    /// the rest is read as CSV records of any length (the first is the header).
    /// Nothing when a preamble line is not UTF-8. A record the CSV reader
    /// rejects is kept as its error, which reading reports when it comes to it.
    pub fn from_capture(file_basename: &str, csv_text: &[u8], binary: Vec<u8>) -> (r: Option<Self>)
        ensures
            match r {
                Some(reader) => {
                    &&& skip_lines_spec(csv_text@, 6) matches Some(rest) && reader.results()
                        == csv_row_results(rest, true)
                    &&& reader.binary() == binary
                    &&& reader.csv_path()@ == file_basename@ + ".csv"@
                    &&& reader.bin_path()@ == file_basename@ + ".bin"@
                },
                None => skip_lines_spec(csv_text@, 6) is None,
            },
    {
        let rest = match skip_lines(csv_text, 6) {
            Some(rest) => rest,
            None => return None,
        };
        let results = csv_record_results(rest.as_slice(), true);
        let (records, error, after) = split_at_error(results);
        let bin_path = concat_str(file_basename, ".bin");
        let csv_path = concat_str(file_basename, ".csv");
        let r = TotalPhaseReader { bin_path, csv_path, records, error, after, binary };
        proof {
            if r.error is None {
                assert(r.results() =~= ok_results(records_view(r.records@)));
            }
        }
        Some(r)
    }

    pub closed spec fn csv_path(&self) -> String {
        self.csv_path
    }

    pub closed spec fn bin_path(&self) -> String {
        self.bin_path
    }

    /// The rows of the CSV export before its first error.
    pub closed spec fn records(&self) -> Vec<Vec<String>> {
        self.records
    }

    /// The first error the CSV reader reports, if any.
    pub closed spec fn csv_error(&self) -> Option<Seq<char>> {
        match self.error {
            Some(e) => Some(e@),
            None => None,
        }
    }

    /// The records of the CSV export not yet read: each its fields, or the
    /// error the CSV reader reports for it.
    pub closed spec fn results(&self) -> Seq<Result<Seq<Seq<char>>, Seq<char>>> {
        ok_results(self.rows()) + match self.error {
            Some(e) => seq![Err::<Seq<Seq<char>>, Seq<char>>(e@)] + results_view(self.after@),
            None => Seq::empty(),
        }
    }

    /// The contents of the binary file.
    pub closed spec fn binary(&self) -> Vec<u8> {
        self.binary
    }

    pub open spec fn rows(&self) -> Seq<Seq<Seq<char>>> {
        records_view(self.records()@)
    }

    /// Every row before the first error is readable.
    pub open spec fn readable(&self) -> bool {
        records_ok(self.rows(), self.binary()@.len())
    }

    /// The packets of every row, in order; the data of each row with a length
    /// is read from the binary file right after the data of the rows before it.
    /// When the CSV reader reports an error for a record, that error comes
    /// back instead, and the records after it are left for the next read;
    /// otherwise the records are used up.
    pub fn read(&mut self) -> (r: Result<Vec<USBPacket<'static>>, String>)
        requires
            old(self).readable(),
        ensures
            match r {
                Ok(packets) => {
                    &&& old(self).csv_error() is None
                    &&& packets@.len() == old(self).rows().len()
                    &&& forall|i: int|
                        0 <= i < packets@.len() ==> #[trigger] packets@[i]@ == packet_models(
                            old(self).rows(),
                            old(self).binary()@,
                        )[i]
                },
                Err(e) => old(self).csv_error() == Some(e@),
            },
            final(self).results() == (if old(self).csv_error() is None {
                Seq::<Result<Seq<Seq<char>>, Seq<char>>>::empty()
            } else {
                old(self).results().skip(old(self).rows().len() + 1int)
            }),
            final(self).binary() == old(self).binary(),
            final(self).csv_path() == old(self).csv_path(),
            final(self).bin_path() == old(self).bin_path(),
    {
        let ghost before = *self;
        let mut records: Vec<Vec<String>> = Vec::new();
        std::mem::swap(&mut records, &mut self.records);
        let packets = packets_of(&records, &self.binary);
        let mut error: Option<String> = None;
        std::mem::swap(&mut error, &mut self.error);
        match error {
            None => {
                assert(self.results() =~= Seq::<Result<Seq<Seq<char>>, Seq<char>>>::empty());
                Ok(packets)
            },
            Some(e) => {
                let mut after: Vec<Result<Vec<String>, String>> = Vec::new();
                std::mem::swap(&mut after, &mut self.after);
                let (rows, err, rest) = split_at_error(after);
                self.records = rows;
                self.error = err;
                self.after = rest;
                proof {
                    let n = before.rows().len();
                    assert(ok_results(before.rows()).len() == n);
                    assert(before.results().skip(n + 1int) =~= results_view(before.after@));
                    if self.error is None {
                        assert(self.results() =~= ok_results(records_view(self.records@)));
                    }
                }
                Err(e)
            },
        }
    }
}

/// Law: the rows a capture reader holds are the records before the first
/// error of what it has not read yet, and its error is that first error.
pub proof fn lemma_rows_lead_results(r: &TotalPhaseReader)
    ensures
        r.rows() == leading_rows(r.results()),
        r.csv_error() == first_error(r.results()),
{
    match r.error {
        Some(e) => {
            lemma_leading_rows(
                r.rows(),
                seq![Err::<Seq<Seq<char>>, Seq<char>>(e@)] + results_view(r.after@),
            );
        },
        None => {
            lemma_leading_rows(r.rows(), Seq::empty());
            assert(ok_results(r.rows()) + Seq::<Result<Seq<Seq<char>>, Seq<char>>>::empty()
                =~= ok_results(r.rows()));
        },
    }
}

/// The packets of the rows `records`, whose data lie back to back in `binary`.
fn packets_of(records: &Vec<Vec<String>>, binary: &Vec<u8>) -> (packets: Vec<USBPacket<'static>>)
    requires
        records_ok(records_view(records@), binary@.len()),
    ensures
        packets@.len() == records@.len(),
        forall|i: int|
            0 <= i < packets@.len() ==> #[trigger] packets@[i]@ == packet_models(
                records_view(records@),
                binary@,
            )[i],
{
    let ghost rs = records_view(records@);
    let mut offset: u64 = 0;
    let mut packets: Vec<USBPacket<'static>> = Vec::new();
    let mut i: usize = 0;
    while i < records.len()
        invariant
            rs == records_view(records@),
            records_ok(rs, binary@.len()),
            i <= records.len(),
            offset == offset_at(rs, i as nat),
            offset <= binary@.len(),
            packets@.len() == i,
            forall|j: int| 0 <= j < i ==> #[trigger] packets@[j]@ == packet_models(rs, binary@)[j],
        decreases records.len() - i,
    {
        assert(record_ok(rs[i as int], offset_at(rs, i as nat), binary@.len()));
        assert(rs[i as int] == record_view(records@[i as int]@));
        let record = USBPacket::new(&records[i], offset, binary);
        assert(record@.length == length_spec(rs[i as int]).unwrap());
        if let Some(length) = record.length {
            assert(offset + length <= binary.len());
            offset = offset + length;
        }
        packets.push(record);
        i = i + 1;
    }
    packets
}

impl TotalPhaseReader {
    /// Whether every row is readable, which is what `read` needs.
    pub fn is_readable(&self) -> (b: bool)
        ensures
            b == self.readable(),
    {
        let ghost rs = self.rows();
        let bin_len = self.binary.len();
        let mut offset: u64 = 0;
        let mut i: usize = 0;
        while i < self.records.len()
            invariant
                rs == records_view(self.records@),
                bin_len == self.binary@.len(),
                i <= self.records.len(),
                offset == offset_at(rs, i as nat),
                offset <= bin_len,
                forall|j: nat| j < i ==> #[trigger] record_ok(rs[j as int], offset_at(rs, j), bin_len as nat),
            decreases self.records.len() - i,
        {
            assert(rs[i as int] == record_view(self.records@[i as int]@));
            if !record_readable(&self.records[i], offset, bin_len) {
                assert(!record_ok(rs[i as int], offset_at(rs, i as nat), bin_len as nat));
                return false;
            }
            if let Some(length) = length_of(&self.records[i]) {
                offset = offset + length;
            }
            i = i + 1;
        }
        true
    }
}

/// The data of the rows `0..n`, back to back.
pub open spec fn data_upto(ms: Seq<PacketModel>, n: nat) -> Seq<u8>
    decreases n,
{
    if n == 0 {
        Seq::<u8>::empty()
    } else {
        data_upto(ms, (n - 1) as nat) + match ms[n - 1].data {
            Some(d) => d,
            None => Seq::<u8>::empty(),
        }
    }
}

/// The lengths of the rows `0..n` added up, a row without a length counting 0.
pub open spec fn length_upto(ms: Seq<PacketModel>, n: nat) -> nat
    decreases n,
{
    if n == 0 {
        0
    } else {
        length_upto(ms, (n - 1) as nat) + match ms[n - 1].length {
            Some(l) => l as nat,
            None => 0,
        }
    }
}

proof fn lemma_packet_data(r: Seq<Seq<char>>, offset: u64, bin: Seq<u8>)
    ensures
        packet_spec(r, offset, bin).data == Some(
            match length_spec(r).unwrap() {
                Some(len) => bin.subrange(offset as int, offset + len),
                None => Seq::<u8>::empty(),
            },
        ),
{
}

/// Law: the data that reading gives for the rows of a capture, taken in order,
/// is exactly the start of the binary file, up to the total length of the rows;
/// that total is the sum of the lengths of the packets read, and it does not
/// exceed the size of the file.
#[verifier::spinoff_prover]
#[verifier::rlimit(50)]
pub proof fn lemma_read_data_tiles_binary(rs: Seq<Seq<Seq<char>>>, bin: Seq<u8>, n: nat)
    requires
        records_ok(rs, bin.len()),
        n <= rs.len(),
        bin.len() <= u64::MAX,
    ensures
        data_upto(packet_models(rs, bin), n) == bin.subrange(0, offset_at(rs, n) as int),
        length_upto(packet_models(rs, bin), n) == offset_at(rs, n),
        offset_at(rs, n) <= bin.len(),
    decreases n,
{
    if n > 0 {
        lemma_read_data_tiles_binary(rs, bin, (n - 1) as nat);
        let k = (n - 1) as int;
        assert(record_ok(rs[k], offset_at(rs, (n - 1) as nat), bin.len()));
        let m = packet_models(rs, bin)[k];
        let o = offset_at(rs, (n - 1) as nat);
        assert(o as u64 == o);
        assert(m == packet_spec(rs[k], o as u64, bin));
        lemma_packet_data(rs[k], o as u64, bin);
        assert(data_upto(packet_models(rs, bin), n) == data_upto(packet_models(rs, bin), (n - 1) as nat) + m.data.unwrap());
        assert(bin.subrange(0, o as int) + m.data.unwrap() =~= bin.subrange(
            0,
            offset_at(rs, n) as int,
        ));
    } else {
        assert(bin.subrange(0, 0) =~= Seq::<u8>::empty());
    }
}

// ----------------------------------------------------------------------------
// The tree of rows
// ----------------------------------------------------------------------------

/// The rows whose operation is interesting, in order.
pub open spec fn keep_interesting(ms: Seq<PacketModel>) -> Seq<PacketModel>
    decreases ms.len(),
{
    if ms.len() == 0 {
        Seq::<PacketModel>::empty()
    } else {
        let k = keep_interesting(ms.drop_last());
        if is_interesting_op(ms.last().operation) {
            k.push(ms.last())
        } else {
            k
        }
    }
}

/// Whether a row's operation is one the interesting-only tree keeps.
pub open spec fn row_is_interesting() -> spec_fn(PacketModel) -> bool {
    |m: PacketModel| is_interesting_op(m.operation)
}

/// Law: the interesting-only tree takes exactly the rows whose operation is
/// interesting, in their order.
pub proof fn lemma_keep_interesting_filters(ms: Seq<PacketModel>)
    ensures
        keep_interesting(ms) == ms.filter(row_is_interesting()),
    decreases ms.len(),
{
    if ms.len() == 0 {
        reveal(Seq::filter);
    } else {
        lemma_keep_interesting_filters(ms.drop_last());
        assert(ms.drop_last().push(ms.last()) =~= ms);
        ms.drop_last().lemma_filter_push(ms.last(), row_is_interesting());
    }
}

/// The rows that go into the tree.
pub open spec fn kept_rows(ms: Seq<PacketModel>, interesting_only: bool) -> Seq<PacketModel> {
    if interesting_only {
        keep_interesting(ms)
    } else {
        ms
    }
}

/// The levels of rows.
pub open spec fn levels_of(ms: Seq<PacketModel>) -> Seq<u8> {
    ms.map_values(|m: PacketModel| m.level)
}

/// The shape of a tree of rows: for node `k` (position `k - 1`), the id of its
/// parent and the ids of its children; and the chain of open ancestors, from
/// the root down to the last node.
pub struct TreeShape {
    pub parents: Seq<Option<nat>>,
    pub children: Seq<Seq<nat>>,
    pub stack: Seq<nat>,
}

/// The tree that rows with the given levels form. A level-0 row starts a new
/// root; a row at level `l > 0` becomes the last child of the deepest of the
/// first `l` open ancestors. Nothing when a nested row has no open ancestor.
pub open spec fn build_tree(levels: Seq<u8>) -> Option<TreeShape>
    decreases levels.len(),
{
    if levels.len() == 0 {
        Some(TreeShape { parents: Seq::empty(), children: Seq::empty(), stack: Seq::empty() })
    } else {
        match build_tree(levels.drop_last()) {
            None => None,
            Some(t) => {
                let id = levels.len();
                let l = levels.last();
                if l == 0 {
                    Some(
                        TreeShape {
                            parents: t.parents.push(None),
                            children: t.children.push(Seq::empty()),
                            stack: seq![id],
                        },
                    )
                } else {
                    let st = if t.stack.len() > l {
                        t.stack.subrange(0, l as int)
                    } else {
                        t.stack
                    };
                    if st.len() == 0 {
                        None
                    } else {
                        let p = st.last();
                        Some(
                            TreeShape {
                                parents: t.parents.push(Some(p)),
                                children: t.children.push(Seq::empty()).update(
                                    p - 1,
                                    t.children[p - 1].push(id),
                                ),
                                stack: st.push(id),
                            },
                        )
                    }
                }
            },
        }
    }
}

/// The ids in a shape name nodes of the tree.
pub open spec fn shape_wf(t: TreeShape, n: nat) -> bool {
    &&& t.parents.len() == n
    &&& t.children.len() == n
    &&& forall|k: int| 0 <= k < t.stack.len() ==> 1 <= #[trigger] t.stack[k] <= n
    &&& forall|i: int, j: int|
        0 <= i < n && 0 <= j < t.children[i].len() ==> 1 <= #[trigger] t.children[i][j] <= n
    &&& forall|i: int|
        0 <= i < n ==> (#[trigger] t.parents[i] matches Some(p) ==> 1 <= p && p <= i)
}

proof fn lemma_build_tree_wf(levels: Seq<u8>)
    requires
        build_tree(levels) is Some,
    ensures
        shape_wf(build_tree(levels).unwrap(), levels.len()),
    decreases levels.len(),
{
    if levels.len() > 0 {
        lemma_build_tree_wf(levels.drop_last());
        let t = build_tree(levels.drop_last()).unwrap();
        let n = levels.len();
        let r = build_tree(levels).unwrap();
        assert forall|i: int, j: int|
            0 <= i < n && 0 <= j < r.children[i].len() implies 1 <= #[trigger] r.children[i][j]
            <= n by {
            if i < n - 1 && !(r.children[i] == t.children[i]) {
                assert(r.children[i] == t.children[i].push(n));
                if j < t.children[i].len() {
                    assert(r.children[i][j] == t.children[i][j]);
                }
            } else if i < n - 1 {
                assert(r.children[i][j] == t.children[i][j]);
            }
        }
    }
}

/// Law: a row is a root of the tree exactly when its level is 0, and a nested
/// row's parent is a node created before it.
pub proof fn lemma_tree_roots_are_level_zero(levels: Seq<u8>, i: int)
    requires
        build_tree(levels) is Some,
        0 <= i < levels.len(),
    ensures
        build_tree(levels).unwrap().parents[i] is None <==> levels[i] == 0,
        build_tree(levels).unwrap().parents[i] matches Some(p) ==> 1 <= p <= i,
    decreases levels.len(),
{
    lemma_build_tree_wf(levels);
    if i < levels.len() - 1 {
        lemma_tree_roots_are_level_zero(levels.drop_last(), i);
    }
}

/// Levels that nest: the first row is at level 0, and no row is more than one
/// level deeper than the row before it.
pub open spec fn well_nested(levels: Seq<u8>) -> bool {
    &&& levels.len() > 0 ==> levels[0] == 0
    &&& forall|i: int| 0 < i < levels.len() ==> #[trigger] levels[i] <= levels[i - 1] + 1
}

/// The chain of open rows of nested levels: one row per level up to the last
/// row's level, each the last row so far at its level.
pub open spec fn open_chain(levels: Seq<u8>, t: TreeShape) -> bool {
    &&& levels.len() == 0 ==> t.stack.len() == 0
    &&& levels.len() > 0 ==> t.stack.len() == levels.last() + 1
    &&& forall|k: int|
        #![trigger t.stack[k]]
        0 <= k < t.stack.len() ==> {
            &&& 1 <= t.stack[k] <= levels.len()
            &&& levels[t.stack[k] - 1] == k
            &&& forall|m: int| t.stack[k] - 1 < m < levels.len() ==> #[trigger] levels[m] > k
        }
}

/// Every nested row hangs under the closest row before it one level up.
pub open spec fn parents_are_closest_above(levels: Seq<u8>, t: TreeShape) -> bool {
    forall|i: int|
        #![trigger t.parents[i]]
        0 <= i < levels.len() && levels[i] > 0 ==> {
            &&& t.parents[i] is Some
            &&& 1 <= t.parents[i].unwrap() <= i
            &&& levels[t.parents[i].unwrap() - 1] + 1 == levels[i]
            &&& forall|m: int|
                t.parents[i].unwrap() - 1 < m < i ==> #[trigger] levels[m] >= levels[i]
        }
}

#[verifier::spinoff_prover]
#[verifier::rlimit(50)]
proof fn lemma_nested_tree(levels: Seq<u8>)
    requires
        well_nested(levels),
    ensures
        build_tree(levels) is Some,
        open_chain(levels, build_tree(levels).unwrap()),
        parents_are_closest_above(levels, build_tree(levels).unwrap()),
        build_tree(levels).unwrap().parents.len() == levels.len(),
    decreases levels.len(),
{
    if levels.len() > 0 {
        let prev = levels.drop_last();
        assert forall|i: int| 0 < i < prev.len() implies #[trigger] prev[i] <= prev[i - 1] + 1 by {
            assert(levels[i] <= levels[i - 1] + 1);
        }
        lemma_nested_tree(prev);
        let t = build_tree(prev).unwrap();
        let n = levels.len() as int;
        let l = levels.last();
        let t2 = build_tree(levels).unwrap();
        if l == 0 {
            assert(t2.stack == seq![n as nat]);
        } else {
            assert(prev.len() > 0);
            assert(l <= levels[n - 2] + 1);
            assert(t.stack.len() >= l);
            let st = if t.stack.len() > l {
                t.stack.subrange(0, l as int)
            } else {
                t.stack
            };
            assert(st.len() == l);
            let p = st.last();
            assert(p == t.stack[l - 1]);
            assert(t2.parents[n - 1] == Some(p));
            assert(t2.stack == st.push(n as nat));
            assert forall|k: int|
                #![trigger t2.stack[k]]
                0 <= k < t2.stack.len() implies {
                &&& 1 <= t2.stack[k] <= levels.len()
                &&& levels[t2.stack[k] - 1] == k
                &&& forall|m: int| t2.stack[k] - 1 < m < levels.len() ==> #[trigger] levels[m] > k
            } by {
                if k < l {
                    assert(t2.stack[k] == t.stack[k]);
                    assert(levels[t.stack[k] - 1] == prev[t.stack[k] - 1]);
                    assert forall|m: int| t2.stack[k] - 1 < m < levels.len() implies #[trigger] levels[m]
                        > k by {
                        if m < n - 1 {
                            assert(levels[m] == prev[m]);
                        }
                    }
                }
            }
            assert forall|m: int| p - 1 < m < n - 1 implies #[trigger] levels[m] >= levels[n - 1] by {
                assert(levels[m] == prev[m]);
                assert(prev[m] > l - 1);
            }
            assert(levels[p - 1] == prev[p - 1]);
        }
        assert forall|i: int|
            #![trigger t2.parents[i]]
            0 <= i < levels.len() && levels[i] > 0 implies {
            &&& t2.parents[i] is Some
            &&& 1 <= t2.parents[i].unwrap() <= i
            &&& levels[t2.parents[i].unwrap() - 1] + 1 == levels[i]
            &&& forall|m: int|
                t2.parents[i].unwrap() - 1 < m < i ==> #[trigger] levels[m] >= levels[i]
        } by {
            if i < n - 1 {
                assert(t2.parents[i] == t.parents[i]);
                assert(levels[i] == prev[i]);
                assert(t.parents[i] is Some);
                assert(levels[t.parents[i].unwrap() - 1] == prev[t.parents[i].unwrap() - 1]);
                assert forall|m: int| t2.parents[i].unwrap() - 1 < m < i implies #[trigger] levels[m]
                    >= levels[i] by {
                    assert(levels[m] == prev[m]);
                }
            }
        }
    }
}

/// Law: rows whose levels nest (the first at level 0, none more than one level
/// deeper than the row before) always form a tree, and each nested row hangs
/// under the closest row before it that is one level up: every row between
/// the two is at the nested row's level or deeper.
pub proof fn lemma_tree_parent_is_closest_row_above(levels: Seq<u8>, i: int)
    requires
        well_nested(levels),
        0 <= i < levels.len(),
        levels[i] > 0,
    ensures
        build_tree(levels) matches Some(t) && t.parents[i] matches Some(p) && 1 <= p <= i
            && levels[p - 1] + 1 == levels[i] && forall|m: int|
            p - 1 < m < i ==> #[trigger] levels[m] >= levels[i],
{
    lemma_nested_tree(levels);
    let t = build_tree(levels).unwrap();
    assert(t.parents[i] is Some);
}

/// The nodes of an arena hold the given rows with the given shape.
pub open spec fn tree_matches(
    nodes: Seq<(USBPacket<'static>, Option<nat>, Seq<nat>)>,
    ms: Seq<PacketModel>,
    t: TreeShape,
) -> bool {
    &&& nodes.len() == ms.len()
    &&& shape_wf(t, ms.len())
    &&& forall|i: int|
        0 <= i < nodes.len() ==> {
            &&& (#[trigger] nodes[i]).0@ == ms[i]
            &&& nodes[i].1 == t.parents[i]
            &&& nodes[i].2 == t.children[i]
        }
}

/// The rows that the tree of a capture holds.
pub open spec fn tree_rows(rs: Seq<Seq<Seq<char>>>, bin: Seq<u8>, interesting_only: bool) -> Seq<
    PacketModel,
> {
    kept_rows(packet_models(rs, bin), interesting_only)
}

/// The models of a sequence of packets.
pub open spec fn packet_views(ps: Seq<USBPacket<'static>>) -> Seq<PacketModel> {
    ps.map_values(|p: USBPacket<'static>| p@)
}

/// The packets in reverse order.
fn reversed(packets: Vec<USBPacket<'static>>) -> (r: Vec<USBPacket<'static>>)
    ensures
        r@.len() == packets@.len(),
        forall|j: int| 0 <= j < r@.len() ==> #[trigger] r@[j] == packets@[packets@.len() - 1 - j],
{
    let mut packets = packets;
    let ghost all = packets@;
    let n = packets.len();
    let mut pending: Vec<USBPacket<'static>> = Vec::new();
    while packets.len() > 0
        invariant
            packets@.len() + pending@.len() == n,
            n == all.len(),
            packets@ == all.subrange(0, packets@.len() as int),
            forall|j: int| 0 <= j < pending@.len() ==> #[trigger] pending@[j] == all[n - 1 - j],
        decreases packets.len(),
    {
        let p = packets.pop().unwrap();
        pending.push(p);
    }
    pending
}

/// The packets (all, or the interesting ones), in order.
fn kept_packets(packets: Vec<USBPacket<'static>>, interesting_only: bool) -> (kept: Vec<
    USBPacket<'static>,
>)
    ensures
        packet_views(kept@) == kept_rows(packet_views(packets@), interesting_only),
{
    if !interesting_only {
        return packets;
    }
    let ghost all = packet_views(packets@);
    let n = packets.len();
    let mut pending = reversed(packets);
    let mut kept: Vec<USBPacket<'static>> = Vec::new();
    let ghost mut taken: int = 0;
    assert(all.take(0) =~= Seq::<PacketModel>::empty());
    assert(packet_views(kept@) =~= Seq::<PacketModel>::empty());
    while pending.len() > 0
        invariant
            n == all.len(),
            0 <= taken,
            taken + pending@.len() == n,
            forall|j: int| 0 <= j < pending@.len() ==> #[trigger] pending@[j]@ == all[n - 1 - j],
            packet_views(kept@) == keep_interesting(all.take(taken)),
        decreases pending.len(),
    {
        let ghost before = pending@;
        let packet = pending.pop().unwrap();
        assert(packet == before[before.len() - 1]);
        assert(packet@ == all[taken]);
        assert(all.take(taken + 1).drop_last() =~= all.take(taken));
        assert(all.take(taken + 1).last() == packet@);
        if packet.is_interesting() {
            let ghost before = packet_views(kept@);
            kept.push(packet);
            assert(packet_views(kept@) =~= before.push(packet@));
        }
        proof {
            taken = taken + 1;
        }
    }
    assert(all.take(n as int) =~= all);
    kept
}

proof fn lemma_build_tree_prefix(levels: Seq<u8>, k: int)
    requires
        0 <= k <= levels.len(),
        build_tree(levels) is Some,
    ensures
        build_tree(levels.take(k)) is Some,
    decreases levels.len() - k,
{
    if k < levels.len() {
        lemma_build_tree_prefix(levels, k + 1);
        assert(levels.take(k + 1).drop_last() =~= levels.take(k));
    } else {
        assert(levels.take(k) =~= levels);
    }
}

/// Adding a level-0 row: a new root, and the open chain is just that root.
proof fn lemma_tree_step_root(
    nodes: Seq<(USBPacket<'static>, Option<nat>, Seq<nat>)>,
    ms: Seq<PacketModel>,
    p: USBPacket<'static>,
)
    requires
        build_tree(levels_of(ms)) matches Some(t) && tree_matches(nodes, ms, t),
        p.level == 0,
    ensures
        build_tree(levels_of(ms.push(p@))) matches Some(t2) && tree_matches(
            nodes.push((p, None, Seq::empty())),
            ms.push(p@),
            t2,
        ) && t2.stack == seq![ms.len() + 1],
{
    let next = ms.push(p@);
    assert(levels_of(next).drop_last() =~= levels_of(ms));
    lemma_build_tree_wf(levels_of(next));
    let t2 = build_tree(levels_of(next)).unwrap();
    let n2 = nodes.push((p, None, Seq::empty()));
    assert forall|i: int| 0 <= i < n2.len() implies {
        &&& (#[trigger] n2[i]).0@ == next[i]
        &&& n2[i].1 == t2.parents[i]
        &&& n2[i].2 == t2.children[i]
    } by {}
}

/// Adding a nested row under the deepest of the first `level` open rows.
proof fn lemma_tree_step_child(
    nodes: Seq<(USBPacket<'static>, Option<nat>, Seq<nat>)>,
    ms: Seq<PacketModel>,
    p: USBPacket<'static>,
    stack: Seq<nat>,
    parent: nat,
)
    requires
        build_tree(levels_of(ms)) matches Some(t) && tree_matches(nodes, ms, t) && (if t.stack.len()
            > p.level {
            stack == t.stack.subrange(0, p.level as int)
        } else {
            stack == t.stack
        }),
        build_tree(levels_of(ms.push(p@))) is Some,
        p.level != 0,
        stack.len() > 0,
        parent == stack.last(),
    ensures
        1 <= parent <= ms.len(),
        nodes[parent - 1].2.len() >= 0,
        build_tree(levels_of(ms.push(p@))) matches Some(t2) && tree_matches(
            ({
                let n = nodes.push((p, None, Seq::<nat>::empty()));
                let child = ms.len() + 1;
                n.update(child - 1, (n[child - 1].0, Some(parent), n[child - 1].2)).update(
                    parent - 1,
                    (n[parent - 1].0, n[parent - 1].1, n[parent - 1].2.push(child)),
                )
            }),
            ms.push(p@),
            t2,
        ) && t2.stack == stack.push(ms.len() + 1),
{
    let next = ms.push(p@);
    assert(levels_of(next).drop_last() =~= levels_of(ms));
    assert(levels_of(next).last() == p.level);
    lemma_build_tree_wf(levels_of(next));
    let t = build_tree(levels_of(ms)).unwrap();
    let t2 = build_tree(levels_of(next)).unwrap();
    assert(stack[stack.len() - 1] == t.stack[stack.len() - 1]);
    let child = ms.len() + 1;
    let n1 = nodes.push((p, None, Seq::<nat>::empty()));
    let n2 = n1.update(child - 1, (n1[child - 1].0, Some(parent), n1[child - 1].2)).update(
        parent - 1,
        (n1[parent - 1].0, n1[parent - 1].1, n1[parent - 1].2.push(child)),
    );
    assert forall|i: int| 0 <= i < n2.len() implies {
        &&& (#[trigger] n2[i]).0@ == next[i]
        &&& n2[i].1 == t2.parents[i]
        &&& n2[i].2 == t2.children[i]
    } by {}
}

/// The tree of rows, in order (see `build_tree`).
fn tree_of(packets: Vec<USBPacket<'static>>) -> (tree: indextree::Arena<USBPacket<'static>>)
    requires
        build_tree(levels_of(packet_views(packets@))) is Some,
    ensures
        packet_tree_free_slots(tree) == 0,
        tree_matches(
            packet_tree_nodes(tree),
            packet_views(packets@),
            build_tree(levels_of(packet_views(packets@))).unwrap(),
        ),
{
    let ghost all = packet_views(packets@);
    let n = packets.len();
    let mut pending = reversed(packets);
    let mut tree = tree_new();
    let mut parents: Vec<usize> = Vec::new();
    let ghost mut taken: int = 0;
    proof {
        assert(levels_of(all.take(0)) =~= Seq::<u8>::empty());
    }
    while pending.len() > 0
        invariant
            n == all.len(),
            0 <= taken,
            taken + pending@.len() == n,
            forall|j: int| 0 <= j < pending@.len() ==> #[trigger] pending@[j]@ == all[n - 1 - j],
            build_tree(levels_of(all)) is Some,
            packet_tree_free_slots(tree) == 0,
            build_tree(levels_of(all.take(taken))) matches Some(t) && tree_matches(
                packet_tree_nodes(tree),
                all.take(taken),
                t,
            ) && parents@.len() == t.stack.len() && forall|k: int|
                0 <= k < parents@.len() ==> #[trigger] parents@[k] as nat == t.stack[k],
        decreases pending.len(),
    {
        let ghost before = pending@;
        let packet = pending.pop().unwrap();
        assert(packet == before[before.len() - 1]);
        assert(packet@ == all[taken]);
        let ghost prev = all.take(taken);
        let ghost nodes = packet_tree_nodes(tree);
        proof {
            assert(all.take(taken + 1) =~= prev.push(packet@));
            assert(levels_of(all).take(taken + 1) =~= levels_of(all.take(taken + 1)));
            lemma_build_tree_prefix(levels_of(all), taken + 1);
        }
        let level = packet.level;
        if level == 0 {
            proof {
                lemma_tree_step_root(nodes, prev, packet);
            }
            let node_id = tree_add(&mut tree, packet);
            parents = Vec::new();
            parents.push(node_id);
        } else {
            parents.truncate(level as usize);
            proof {
                let t = build_tree(levels_of(prev)).unwrap();
                let next = prev.push(packet@);
                assert(levels_of(next).drop_last() =~= levels_of(prev));
                assert(levels_of(next).last() == packet.level);
                let ghost st = if t.stack.len() > level { t.stack.subrange(0, level as int) } else { t.stack };
                assert(parents@.len() == st.len());
            }
            let parent: usize = *parents.last().unwrap();
            proof {
                let t = build_tree(levels_of(prev)).unwrap();
                let st = if t.stack.len() > level { t.stack.subrange(0, level as int) } else { t.stack };
                assert(parent as nat == st.last());
                lemma_tree_step_child(nodes, prev, packet, st, parent as nat);
            }
            let new_id = tree_add(&mut tree, packet);
            tree_append(&mut tree, parent, new_id);
            parents.push(new_id);
        }
        proof {
            taken = taken + 1;
        }
    }
    proof {
        assert(all.take(n as int) =~= all);
    }
    tree
}

impl TotalPhaseReader {
    /// The rows (all, or only the interesting ones) are readable and, unless
    /// the CSV reader reports an error after them, form a tree.
    pub open spec fn tree_readable(&self, interesting_only: bool) -> bool {
        &&& self.readable()
        &&& self.csv_error() is None ==> build_tree(
            levels_of(tree_rows(self.rows(), self.binary()@, interesting_only)),
        ) is Some
    }

    /// The tree of the rows (all, or only the interesting ones): each row hangs
    /// under the open row one level up (see `build_tree`). Reads the rows as
    /// `read` does, and gives back its error.
    pub fn read_tree(&mut self, interesting_only: bool) -> (r: Result<
        indextree::Arena<USBPacket<'static>>,
        String,
    >)
        requires
            old(self).tree_readable(interesting_only),
        ensures
            match r {
                Ok(tree) => {
                    &&& old(self).csv_error() is None
                    &&& packet_tree_free_slots(tree) == 0
                    &&& tree_matches(
                        packet_tree_nodes(tree),
                        tree_rows(old(self).rows(), old(self).binary()@, interesting_only),
                        build_tree(
                            levels_of(
                                tree_rows(old(self).rows(), old(self).binary()@, interesting_only),
                            ),
                        ).unwrap(),
                    )
                },
                Err(e) => old(self).csv_error() == Some(e@),
            },
            final(self).results() == (if old(self).csv_error() is None {
                Seq::<Result<Seq<Seq<char>>, Seq<char>>>::empty()
            } else {
                old(self).results().skip(old(self).rows().len() + 1int)
            }),
            final(self).binary() == old(self).binary(),
            final(self).csv_path() == old(self).csv_path(),
            final(self).bin_path() == old(self).bin_path(),
    {
        let ghost rs = self.rows();
        let ghost bin = self.binary()@;
        let packets = match self.read() {
            Ok(packets) => packets,
            Err(e) => return Err(e),
        };
        assert(packet_views(packets@) =~= packet_models(rs, bin));
        let kept = kept_packets(packets, interesting_only);
        Ok(tree_of(kept))
    }
}

/// The tree of the rows `records` (all, or only the interesting ones).
fn tree_from(records: &Vec<Vec<String>>, binary: &Vec<u8>, interesting_only: bool) -> (tree:
    indextree::Arena<USBPacket<'static>>)
    requires
        records_ok(records_view(records@), binary@.len()),
        build_tree(levels_of(tree_rows(records_view(records@), binary@, interesting_only))) is Some,
    ensures
        packet_tree_free_slots(tree) == 0,
        tree_matches(
            packet_tree_nodes(tree),
            tree_rows(records_view(records@), binary@, interesting_only),
            build_tree(
                levels_of(tree_rows(records_view(records@), binary@, interesting_only)),
            ).unwrap(),
        ),
{
    let packets = packets_of(records, binary);
    assert(packet_views(packets@) =~= packet_models(records_view(records@), binary@));
    let kept = kept_packets(packets, interesting_only);
    tree_of(kept)
}

/// Whether rows with the given levels form a tree (see `build_tree`): only the
/// depth of the chain of open rows matters.
fn tree_buildable(levels: &Vec<u8>) -> (b: bool)
    ensures
        b == (build_tree(levels@) is Some),
{
    let mut depth: usize = 0;
    let mut i: usize = 0;
    assert(levels@.take(0) =~= Seq::<u8>::empty());
    while i < levels.len()
        invariant
            i <= levels.len(),
            build_tree(levels@.take(i as int)) matches Some(t) && t.stack.len() == depth,
            depth <= i,
        decreases levels.len() - i,
    {
        let l = levels[i];
        proof {
            assert(levels@.take(i + 1).drop_last() =~= levels@.take(i as int));
            assert(levels@.take(i + 1).last() == l);
        }
        if l == 0 {
            depth = 1;
        } else {
            let kept: usize = if depth > l as usize { l as usize } else { depth };
            if kept == 0 {
                proof {
                    if build_tree(levels@) is Some {
                        lemma_build_tree_prefix(levels@, i + 1);
                    }
                }
                return false;
            }
            depth = kept + 1;
        }
        i = i + 1;
    }
    assert(levels@.take(levels.len() as int) =~= levels@);
    true
}

/// The levels of packets.
fn levels_vec(packets: &Vec<USBPacket<'static>>) -> (v: Vec<u8>)
    ensures
        v@ == levels_of(packet_views(packets@)),
{
    let mut v: Vec<u8> = Vec::new();
    let mut i: usize = 0;
    while i < packets.len()
        invariant
            i <= packets.len(),
            v@ == levels_of(packet_views(packets@)).take(i as int),
        decreases packets.len() - i,
    {
        v.push(packets[i].level);
        i = i + 1;
        assert(v@ =~= levels_of(packet_views(packets@)).take(i as int));
    }
    assert(v@ =~= levels_of(packet_views(packets@)));
    v
}

impl TotalPhaseReader {
    /// Whether the rows (all, or only the interesting ones) can be read and
    /// form a tree, which is what `read_tree` needs.
    pub fn is_tree_readable(&self, interesting_only: bool) -> (b: bool)
        ensures
            b == self.tree_readable(interesting_only),
    {
        if !self.is_readable() {
            return false;
        }
        if self.error.is_some() {
            return true;
        }
        let packets = packets_of(&self.records, &self.binary);
        assert(packet_views(packets@) =~= packet_models(self.rows(), self.binary()@));
        let kept = kept_packets(packets, interesting_only);
        tree_buildable(&levels_vec(&kept))
    }
}

// ----------------------------------------------------------------------------
// Request blocks
// ----------------------------------------------------------------------------

/// The operations of the standard control requests that become control
/// transfers.
pub open spec fn is_control_op(op: OperationType) -> bool {
    match op {
        OperationType::ControlTransfer | OperationType::GetDeviceDescriptor
        | OperationType::GetConfigurationDescriptor | OperationType::SetConfiguration
        | OperationType::SetAddress | OperationType::GetHubDescriptor
        | OperationType::GetDeviceQualifierDescriptor | OperationType::GetStringDescriptor => true,
        _ => false,
    }
}

/// Law: the top-level operations that become control transfers are exactly the
/// control transfers and the standard requests Get Device, Configuration,
/// String, Device Qualifier and Hub Descriptor, Set Configuration and Set
/// Address.
pub proof fn lemma_control_requests(op: OperationType)
    ensures
        is_control_op(op) <==> {
            ||| op == OperationType::ControlTransfer
            ||| op == OperationType::GetDeviceDescriptor
            ||| op == OperationType::GetConfigurationDescriptor
            ||| op == OperationType::GetStringDescriptor
            ||| op == OperationType::GetDeviceQualifierDescriptor
            ||| op == OperationType::GetHubDescriptor
            ||| op == OperationType::SetConfiguration
            ||| op == OperationType::SetAddress
        },
{
}

/// The data of a row, or no bytes.
pub open spec fn data_or_empty(m: PacketModel) -> Seq<u8> {
    match m.data {
        Some(d) => d,
        None => Seq::<u8>::empty(),
    }
}

/// The request block of a top-level IN or OUT transaction.
pub open spec fn transaction_urb(p: PacketModel, direction: USBDirection) -> UrbModel {
    UrbModel {
        direction,
        data: p.data.unwrap(),
        speed: p.speed,
        device_number: p.device_id.unwrap(),
        endpoint_number: p.endpoint_id.unwrap(),
        index: p.index as u32,
        transfer_type: USBTransferType::Bulk,
        control_stage: None,
        index_ns: p.timestamp,
        duration_ns: match p.duration_us {
            Some(d) => d,
            None => 0,
        },
        usb_function: usb_function_spec(p.operation),
    }
}

/// The data of the children in `cs` whose operation is `op`, back to back.
pub open spec fn children_data(ms: Seq<PacketModel>, cs: Seq<nat>, op: OperationType) -> Seq<u8>
    decreases cs.len(),
{
    if cs.len() == 0 {
        Seq::<u8>::empty()
    } else {
        children_data(ms, cs.drop_last(), op) + if ms[cs.last() - 1].operation == op {
            data_or_empty(ms[cs.last() - 1])
        } else {
            Seq::<u8>::empty()
        }
    }
}

/// How many of the children in `cs` have operation `op`.
pub open spec fn children_count(ms: Seq<PacketModel>, cs: Seq<nat>, op: OperationType) -> nat
    decreases cs.len(),
{
    if cs.len() == 0 {
        0
    } else {
        children_count(ms, cs.drop_last(), op) + if ms[cs.last() - 1].operation == op {
            1nat
        } else {
            0nat
        }
    }
}

/// The request blocks of the control transfer at node `id`: the setup stage,
/// whose data is the first child's data followed by the data of the OUT
/// transactions under the node; then, when there are IN transactions under the
/// node, the data stage with their data.
pub open spec fn control_urbs(ms: Seq<PacketModel>, t: TreeShape, id: nat) -> Seq<UrbModel> {
    let p = ms[id - 1];
    let cs = t.children[id - 1];
    let setup = ms[cs[0] - 1];
    let duration = match setup.duration_us {
        Some(d) => d,
        None => 0,
    };
    let setup_urb = UrbModel {
        direction: USBDirection::DirectionOut,
        speed: p.speed,
        device_number: p.device_id.unwrap(),
        endpoint_number: p.endpoint_id.unwrap(),
        index: p.index as u32,
        transfer_type: USBTransferType::Control,
        control_stage: Some(USBControlStage::Setup),
        index_ns: setup.timestamp,
        duration_ns: duration,
        usb_function: usb_function_spec(p.operation),
        data: data_or_empty(setup) + children_data(ms, cs, OperationType::OutputTransaction),
    };
    let data_urb = UrbModel {
        direction: USBDirection::DirectionIn,
        control_stage: Some(USBControlStage::Data),
        data: children_data(ms, cs, OperationType::InputTransaction),
        ..setup_urb
    };
    if children_count(ms, cs, OperationType::InputTransaction) > 0 {
        seq![setup_urb, data_urb]
    } else {
        seq![setup_urb]
    }
}

/// Whether child `c` (an id) has operation `op`.
pub open spec fn child_has_operation(ms: Seq<PacketModel>, op: OperationType) -> spec_fn(nat) -> bool {
    |c: nat| ms[c - 1].operation == op
}

/// The data of child `c` (an id), or no bytes.
pub open spec fn child_data(ms: Seq<PacketModel>) -> spec_fn(nat) -> Seq<u8> {
    |c: nat| data_or_empty(ms[c - 1])
}

proof fn lemma_children_data_filter(ms: Seq<PacketModel>, cs: Seq<nat>, op: OperationType)
    ensures
        children_data(ms, cs, op) == cs.filter(child_has_operation(ms, op)).flat_map(child_data(ms)),
        children_count(ms, cs, op) == cs.filter(child_has_operation(ms, op)).len(),
    decreases cs.len(),
{
    let p = child_has_operation(ms, op);
    if cs.len() == 0 {
        reveal(Seq::filter);
        assert(cs.filter(p) =~= Seq::<nat>::empty());
        assert(cs.filter(p).flat_map(child_data(ms)) =~= Seq::<u8>::empty()) by {
            reveal_with_fuel(Seq::flatten, 1);
        }
    } else {
        let init = cs.drop_last();
        let last = cs.last();
        lemma_children_data_filter(ms, init, op);
        assert(init.push(last) =~= cs);
        init.lemma_filter_push(last, p);
        if p(last) {
            init.filter(p).lemma_flat_map_push(child_data(ms), last);
        } else {
            assert(children_data(ms, cs, op) =~= children_data(ms, init, op));
        }
    }
}

/// Law: the setup-stage block of a standard control request carries the data
/// of the request's first child followed by the data of every OUT transaction
/// under the request, in order; a data-stage block follows exactly when IN
/// transactions are under the request, and carries their data, in order.
pub proof fn lemma_control_transfer_data(ms: Seq<PacketModel>, t: TreeShape, id: nat)
    requires
        1 <= id <= ms.len(),
        is_control_op(ms[id - 1].operation),
    ensures
        ({
            let cs = t.children[id - 1];
            let urbs = root_urbs(ms, t, id);
            let outs = cs.filter(child_has_operation(ms, OperationType::OutputTransaction));
            let ins = cs.filter(child_has_operation(ms, OperationType::InputTransaction));
            &&& urbs.len() == if ins.len() > 0 {
                2int
            } else {
                1int
            }
            &&& urbs[0].control_stage == Some(USBControlStage::Setup)
            &&& urbs[0].direction == USBDirection::DirectionOut
            &&& urbs[0].data == data_or_empty(ms[cs[0] - 1]) + outs.flat_map(child_data(ms))
            &&& ins.len() > 0 ==> {
                &&& urbs[1].control_stage == Some(USBControlStage::Data)
                &&& urbs[1].direction == USBDirection::DirectionIn
                &&& urbs[1].index == urbs[0].index
                &&& urbs[1].data == ins.flat_map(child_data(ms))
            }
        }),
{
    let cs = t.children[id - 1];
    lemma_children_data_filter(ms, cs, OperationType::OutputTransaction);
    lemma_children_data_filter(ms, cs, OperationType::InputTransaction);
}

/// The request blocks of the top-level node `id`.
pub open spec fn root_urbs(ms: Seq<PacketModel>, t: TreeShape, id: nat) -> Seq<UrbModel> {
    let p = ms[id - 1];
    if p.operation == OperationType::InputTransaction {
        seq![transaction_urb(p, USBDirection::DirectionIn)]
    } else if p.operation == OperationType::OutputTransaction {
        seq![transaction_urb(p, USBDirection::DirectionOut)]
    } else if is_control_op(p.operation) {
        control_urbs(ms, t, id)
    } else {
        Seq::<UrbModel>::empty()
    }
}

/// The request blocks of the top-level nodes among nodes `1..=n`, in order.
pub open spec fn urbs_upto(ms: Seq<PacketModel>, t: TreeShape, n: nat) -> Seq<UrbModel>
    decreases n,
{
    if n == 0 {
        Seq::<UrbModel>::empty()
    } else {
        urbs_upto(ms, t, (n - 1) as nat) + if t.parents[n - 1] is None {
            root_urbs(ms, t, n)
        } else {
            Seq::<UrbModel>::empty()
        }
    }
}

/// Law: every request block of a top-level row describes that row: its device,
/// endpoint, index, speed and URB function (the function of the row's
/// operation). An IN or OUT transaction gives one bulk block in its direction
/// with the row's data, time and duration (0 when it has none); a control
/// request takes its time and duration from its first child; every other row
/// gives no block.
pub proof fn lemma_root_blocks_describe_row(ms: Seq<PacketModel>, t: TreeShape, id: nat)
    requires
        1 <= id <= ms.len(),
    ensures
        ({
            let p = ms[id - 1];
            let urbs = root_urbs(ms, t, id);
            &&& forall|k: int|
                0 <= k < urbs.len() ==> {
                    &&& (#[trigger] urbs[k]).device_number == p.device_id.unwrap()
                    &&& urbs[k].endpoint_number == p.endpoint_id.unwrap()
                    &&& urbs[k].index == p.index as u32
                    &&& urbs[k].speed == p.speed
                    &&& urbs[k].usb_function == usb_function_spec(p.operation)
                }
            &&& p.operation == OperationType::InputTransaction ==> urbs.len() == 1
                && urbs[0].direction == USBDirection::DirectionIn
            &&& p.operation == OperationType::OutputTransaction ==> urbs.len() == 1
                && urbs[0].direction == USBDirection::DirectionOut
            &&& (p.operation == OperationType::InputTransaction || p.operation
                == OperationType::OutputTransaction) ==> {
                &&& urbs[0].transfer_type == USBTransferType::Bulk
                &&& urbs[0].data == p.data.unwrap()
                &&& urbs[0].index_ns == p.timestamp
                &&& urbs[0].duration_ns == (match p.duration_us {
                    Some(d) => d,
                    None => 0,
                })
            }
            &&& is_control_op(p.operation) ==> {
                let setup = ms[t.children[id - 1][0] - 1];
                forall|k: int|
                    0 <= k < urbs.len() ==> {
                        &&& (#[trigger] urbs[k]).transfer_type == USBTransferType::Control
                        &&& urbs[k].index_ns == setup.timestamp
                        &&& urbs[k].duration_ns == (match setup.duration_us {
                            Some(d) => d,
                            None => 0,
                        })
                    }
            }
            &&& !(p.operation == OperationType::InputTransaction || p.operation
                == OperationType::OutputTransaction || is_control_op(p.operation)) ==> urbs.len()
                == 0
        }),
{
}

/// A request block is a bulk block without a control stage, or a control
/// block in its setup or data stage, and it goes in or out.
pub open spec fn block_shape_ok(u: UrbModel) -> bool {
    &&& u.direction != USBDirection::DirectionNone
    &&& {
        ||| u.transfer_type == USBTransferType::Bulk && u.control_stage is None
        ||| u.transfer_type == USBTransferType::Control && (u.control_stage == Some(
            USBControlStage::Setup,
        ) || u.control_stage == Some(USBControlStage::Data))
    }
}

/// Every data-stage block comes right after a setup-stage block of the same
/// request (same index).
pub open spec fn data_follows_setup(s: Seq<UrbModel>) -> bool {
    forall|i: int|
        #![trigger s[i]]
        0 <= i < s.len() && s[i].control_stage == Some(USBControlStage::Data) ==> {
            &&& i > 0
            &&& s[i - 1].control_stage == Some(USBControlStage::Setup)
            &&& s[i - 1].index == s[i].index
        }
}

/// Law: every request block of a capture is a bulk block without a control
/// stage, or a control block in its setup or data stage, going in or out; and
/// every data-stage block comes right after the setup-stage block of the same
/// request.
#[verifier::spinoff_prover]
#[verifier::rlimit(50)]
pub proof fn lemma_request_block_shapes(ms: Seq<PacketModel>, t: TreeShape, n: nat)
    ensures
        forall|i: int|
            0 <= i < urbs_upto(ms, t, n).len() ==> block_shape_ok(#[trigger] urbs_upto(ms, t, n)[i]),
        data_follows_setup(urbs_upto(ms, t, n)),
    decreases n,
{
    if n > 0 {
        lemma_request_block_shapes(ms, t, (n - 1) as nat);
        let prev = urbs_upto(ms, t, (n - 1) as nat);
        let r = if t.parents[n - 1] is None {
            root_urbs(ms, t, n)
        } else {
            Seq::<UrbModel>::empty()
        };
        if t.parents[n - 1] is None {
            lemma_root_urbs_shape(ms, t, n);
        }
        lemma_shapes_append(prev, r);
    }
}

/// The blocks of one top-level node have their shapes, and a data-stage block
/// among them comes second, right after the setup-stage block of its request.
#[verifier::spinoff_prover]
proof fn lemma_root_urbs_shape(ms: Seq<PacketModel>, t: TreeShape, id: nat)
    ensures
        forall|k: int| 0 <= k < root_urbs(ms, t, id).len() ==> block_shape_ok(
            #[trigger] root_urbs(ms, t, id)[k],
        ),
        forall|k: int|
            #![trigger root_urbs(ms, t, id)[k]]
            0 <= k < root_urbs(ms, t, id).len() && root_urbs(ms, t, id)[k].control_stage == Some(
                USBControlStage::Data,
            ) ==> k == 1 && root_urbs(ms, t, id)[0].control_stage == Some(USBControlStage::Setup)
                && root_urbs(ms, t, id)[0].index == root_urbs(ms, t, id)[1].index,
{
}

/// Appending blocks that have their shapes, and whose data-stage blocks come
/// second after their setup blocks, keeps both properties.
#[verifier::spinoff_prover]
proof fn lemma_shapes_append(prev: Seq<UrbModel>, r: Seq<UrbModel>)
    requires
        forall|i: int| 0 <= i < prev.len() ==> block_shape_ok(#[trigger] prev[i]),
        data_follows_setup(prev),
        forall|k: int| 0 <= k < r.len() ==> block_shape_ok(#[trigger] r[k]),
        forall|k: int|
            #![trigger r[k]]
            0 <= k < r.len() && r[k].control_stage == Some(USBControlStage::Data) ==> k == 1
                && r[0].control_stage == Some(USBControlStage::Setup) && r[0].index == r[1].index,
    ensures
        forall|i: int| 0 <= i < (prev + r).len() ==> block_shape_ok(#[trigger] (prev + r)[i]),
        data_follows_setup(prev + r),
{
    let all = prev + r;
    assert forall|i: int| 0 <= i < all.len() implies block_shape_ok(#[trigger] all[i]) by {
        if i >= prev.len() {
            assert(all[i] == r[i - prev.len()]);
        } else {
            assert(all[i] == prev[i]);
        }
    }
    assert forall|i: int|
        #![trigger all[i]]
        0 <= i < all.len() && all[i].control_stage == Some(USBControlStage::Data) implies {
        &&& i > 0
        &&& all[i - 1].control_stage == Some(USBControlStage::Setup)
        &&& all[i - 1].index == all[i].index
    } by {
        if i >= prev.len() {
            assert(all[i] == r[i - prev.len()]);
            assert(all[i - 1] == r[i - 1 - prev.len()]);
        } else {
            assert(all[i] == prev[i]);
            assert(all[i - 1] == prev[i - 1]);
        }
    }
}

/// Every top-level transaction or control request names its device and
/// endpoint, and every control request has a first child (its setup).
pub open spec fn urbs_ready(ms: Seq<PacketModel>, t: TreeShape) -> bool {
    forall|i: int|
        0 <= i < ms.len() && #[trigger] t.parents[i] is None && (ms[i].operation
            == OperationType::InputTransaction || ms[i].operation
            == OperationType::OutputTransaction || is_control_op(ms[i].operation)) ==> {
            &&& ms[i].device_id is Some
            &&& ms[i].endpoint_id is Some
            &&& ms[i].data is Some
            &&& is_control_op(ms[i].operation) ==> t.children[i].len() > 0
        }
}

/// Appends the bytes of `src` to `dst`.
fn append_bytes(dst: &mut Vec<u8>, src: &Vec<u8>)
    ensures
        final(dst)@ == old(dst)@ + src@,
{
    let mut i: usize = 0;
    let ghost start = dst@;
    while i < src.len()
        invariant
            i <= src.len(),
            dst@ == start + src@.subrange(0, i as int),
        decreases src.len() - i,
    {
        dst.push(src[i]);
        i = i + 1;
        assert(dst@ =~= start + src@.subrange(0, i as int));
    }
    assert(src@.subrange(0, src.len() as int) =~= src@);
}

/// The data of a packet, or no bytes.
fn data_copy(p: &USBPacket<'static>) -> (d: Vec<u8>)
    ensures
        d@ == data_or_empty(p@),
{
    let mut d: Vec<u8> = Vec::new();
    match &p.data {
        Some(v) => append_bytes(&mut d, v),
        None => {},
    }
    assert(d@ =~= data_or_empty(p@));
    d
}

/// The data of the children of node `id` whose operation is `op`, back to back,
/// and how many such children there are.
fn collect_children_data(
    arena: &indextree::Arena<USBPacket<'static>>,
    id: usize,
    op: OperationType,
    Ghost(ms): Ghost<Seq<PacketModel>>,
    Ghost(t): Ghost<TreeShape>,
) -> (r: (Vec<u8>, usize))
    requires
        packet_tree_free_slots(*arena) == 0,
        tree_matches(packet_tree_nodes(*arena), ms, t),
        1 <= id <= ms.len(),
    ensures
        r.0@ == children_data(ms, t.children[id - 1], op),
        r.1 == children_count(ms, t.children[id - 1], op),
{
    let children = tree_children(arena, id);
    let ghost cs = t.children[id - 1];
    assert(packet_tree_nodes(*arena)[id - 1].2 == cs);
    let mut data: Vec<u8> = Vec::new();
    let mut count: usize = 0;
    let mut k: usize = 0;
    while k < children.len()
        invariant
            packet_tree_free_slots(*arena) == 0,
            tree_matches(packet_tree_nodes(*arena), ms, t),
            1 <= id <= ms.len(),
            cs == t.children[id - 1],
            children@.len() == cs.len(),
            forall|i: int| 0 <= i < children@.len() ==> #[trigger] children@[i] as nat == cs[i],
            k <= children.len(),
            data@ == children_data(ms, cs.take(k as int), op),
            count == children_count(ms, cs.take(k as int), op),
            count <= k,
        decreases children.len() - k,
    {
        let c = children[k];
        assert(c as nat == cs[k as int]);
        assert(1 <= cs[k as int] <= ms.len());
        let node = tree_get(arena, c);
        assert(node@ == ms[c - 1]);
        assert(cs.take(k + 1).drop_last() =~= cs.take(k as int));
        assert(cs.take(k + 1).last() == c);
        if node.operation == op {
            let d = data_copy(node);
            append_bytes(&mut data, &d);
            count = count + 1;
        } else {
            assert(data@ =~= data@ + Seq::<u8>::empty());
        }
        k = k + 1;
    }
    assert(cs.take(children.len() as int) =~= cs);
    (data, count)
}

/// The request blocks of the control transfer at node `id`.
fn compose_control_transfer(
    id: usize,
    arena: &indextree::Arena<USBPacket<'static>>,
    Ghost(ms): Ghost<Seq<PacketModel>>,
    Ghost(t): Ghost<TreeShape>,
) -> (results: Vec<USBRequestBlock>)
    requires
        packet_tree_free_slots(*arena) == 0,
        tree_matches(packet_tree_nodes(*arena), ms, t),
        1 <= id <= ms.len(),
        t.children[id - 1].len() > 0,
        ms[id - 1].device_id is Some,
        ms[id - 1].endpoint_id is Some,
    ensures
        results@.map_values(|u: USBRequestBlock| u@) == control_urbs(ms, t, id as nat),
{
    let mut results: Vec<USBRequestBlock> = Vec::new();
    let packet = tree_get(arena, id);
    assert(packet@ == ms[id - 1]);
    let setup_id = tree_first_child(arena, id).unwrap();
    assert(1 <= t.children[id - 1][0] <= ms.len());
    let setup = tree_get(arena, setup_id);
    let mut data = data_copy(setup);
    let (output_data, _) = collect_children_data(arena, id, OperationType::OutputTransaction, Ghost(ms), Ghost(t));
    append_bytes(&mut data, &output_data);
    results.push(
        USBRequestBlock {
            direction: USBDirection::DirectionOut,
            speed: packet.speed,
            device_number: packet.device_id.unwrap(),
            endpoint_number: packet.endpoint_id.unwrap(),
            index: packet.index as u32,
            transfer_type: USBTransferType::Control,
            control_stage: Some(USBControlStage::Setup),
            index_ns: setup.timestamp,
            duration_ns: match setup.duration_us {
                Some(d) => d,
                None => 0,
            },
            usb_function: total_phase_to_usb_function(packet.operation),
            data,
        },
    );
    let (input_data, input_packets_length) = collect_children_data(arena, id, OperationType::InputTransaction, Ghost(ms), Ghost(t));
    if input_packets_length > 0 {
        results.push(
            USBRequestBlock {
                direction: USBDirection::DirectionIn,
                speed: packet.speed,
                device_number: packet.device_id.unwrap(),
                endpoint_number: packet.endpoint_id.unwrap(),
                index: packet.index as u32,
                transfer_type: USBTransferType::Control,
                control_stage: Some(USBControlStage::Data),
                index_ns: setup.timestamp,
                duration_ns: match setup.duration_us {
                    Some(d) => d,
                    None => 0,
                },
                usb_function: total_phase_to_usb_function(packet.operation),
                data: input_data,
            },
        );
    }
    assert(results@.map_values(|u: USBRequestBlock| u@) =~= control_urbs(ms, t, id as nat));
    results
}

/// The request block of a top-level transaction.
fn transaction_block(p: &USBPacket<'static>, direction: USBDirection) -> (u: USBRequestBlock)
    requires
        p.device_id is Some,
        p.endpoint_id is Some,
        p.data is Some,
    ensures
        u@ == transaction_urb(p@, direction),
{
    let mut data: Vec<u8> = Vec::new();
    match &p.data {
        Some(v) => append_bytes(&mut data, v),
        None => {},
    }
    USBRequestBlock {
        direction,
        data,
        speed: p.speed,
        device_number: p.device_id.unwrap(),
        endpoint_number: p.endpoint_id.unwrap(),
        index: p.index as u32,
        transfer_type: USBTransferType::Bulk,
        control_stage: None,
        index_ns: p.timestamp,
        duration_ns: match p.duration_us {
            Some(d) => d,
            None => 0,
        },
        usb_function: total_phase_to_usb_function(p.operation),
    }
}

/// Appends the blocks of `more` to `dst`.
fn append_blocks(dst: &mut Vec<USBRequestBlock>, more: Vec<USBRequestBlock>)
    ensures
        final(dst)@ == old(dst)@ + more@,
{
    let mut more = more;
    dst.append(&mut more);
}

impl TotalPhaseReader {
    /// The interesting rows and their tree.
    pub open spec fn urb_rows(&self) -> Seq<PacketModel> {
        tree_rows(self.rows(), self.binary()@, true)
    }

    pub open spec fn urb_tree(&self) -> TreeShape {
        build_tree(levels_of(self.urb_rows())).unwrap()
    }

    /// The capture can be turned into request blocks, unless the CSV reader
    /// reports an error after its rows.
    pub open spec fn urbs_readable(&self) -> bool {
        &&& self.tree_readable(true)
        &&& self.csv_error() is None ==> urbs_ready(self.urb_rows(), self.urb_tree())
    }

    /// The request blocks of the capture: for every top-level node of the tree
    /// of interesting rows, in order, an IN or OUT transaction gives one bulk
    /// block and a standard control request gives its setup block and, when it
    /// read data, its data block (see `root_urbs`); other nodes give none.
    pub fn usb_request_blocks(&mut self) -> (r: Result<Vec<USBRequestBlock>, String>)
        requires
            old(self).urbs_readable(),
        ensures
            match r {
                Ok(results) => {
                    &&& old(self).csv_error() is None
                    &&& results@.map_values(|u: USBRequestBlock| u@) == urbs_upto(
                        old(self).urb_rows(),
                        old(self).urb_tree(),
                        old(self).urb_rows().len(),
                    )
                },
                Err(e) => old(self).csv_error() == Some(e@),
            },
            final(self).results() == (if old(self).csv_error() is None {
                Seq::<Result<Seq<Seq<char>>, Seq<char>>>::empty()
            } else {
                old(self).results().skip(old(self).rows().len() + 1int)
            }),
            final(self).binary() == old(self).binary(),
            final(self).csv_path() == old(self).csv_path(),
            final(self).bin_path() == old(self).bin_path(),
    {
        let ghost ms = self.urb_rows();
        let ghost t = self.urb_tree();
        let packets = match self.read_tree(true) {
            Ok(tree) => tree,
            Err(e) => return Err(e),
        };
        let mut results: Vec<USBRequestBlock> = Vec::new();
        let n = tree_len(&packets);
        let mut done: usize = 0;
        while done < n
            invariant
                packet_tree_free_slots(packets) == 0,
                tree_matches(packet_tree_nodes(packets), ms, t),
                urbs_ready(ms, t),
                n == ms.len(),
                done <= n,
                results@.map_values(|u: USBRequestBlock| u@) == urbs_upto(ms, t, done as nat),
            decreases n - done,
        {
            let id: usize = done + 1;
            let ghost before = results@.map_values(|u: USBRequestBlock| u@);
            let parent = tree_parent(&packets, id);
            let result = tree_get(&packets, id);
            assert(result@ == ms[id - 1]);
            if parent.is_none() {
                assert(t.parents[id - 1] is None);
                let item: Vec<USBRequestBlock> = if result.operation == OperationType::InputTransaction {
                    let mut v: Vec<USBRequestBlock> = Vec::new();
                    v.push(transaction_block(result, USBDirection::DirectionIn));
                    v
                } else if result.operation == OperationType::OutputTransaction {
                    let mut v: Vec<USBRequestBlock> = Vec::new();
                    v.push(transaction_block(result, USBDirection::DirectionOut));
                    v
                } else if is_control_operation(result.operation) {
                    compose_control_transfer(id, &packets, Ghost(ms), Ghost(t))
                } else {
                    Vec::new()
                };
                assert(item@.map_values(|u: USBRequestBlock| u@) =~= root_urbs(ms, t, id as nat));
                let ghost item_view = item@;
                append_blocks(&mut results, item);
                assert(results@.map_values(|u: USBRequestBlock| u@) =~= before + item_view.map_values(
                    |u: USBRequestBlock| u@,
                ));
            } else {
                assert(t.parents[id - 1] is Some);
                assert(before + Seq::<UrbModel>::empty() =~= before);
            }
            done = done + 1;
        }
        Ok(results)
    }
}

impl TotalPhaseReader {
    /// Whether the capture can be turned into request blocks, which is what
    /// `usb_request_blocks` needs.
    pub fn is_urbs_readable(&self) -> (b: bool)
        ensures
            b == self.urbs_readable(),
    {
        if !self.is_tree_readable(true) {
            return false;
        }
        if self.error.is_some() {
            return true;
        }
        let ghost ms = self.urb_rows();
        let ghost t = self.urb_tree();
        let packets = tree_from(&self.records, &self.binary, true);
        let n = tree_len(&packets);
        let mut i: usize = 0;
        while i < n
            invariant
                packet_tree_free_slots(packets) == 0,
                tree_matches(packet_tree_nodes(packets), ms, t),
                self.csv_error() is None,
                ms == self.urb_rows(),
                t == self.urb_tree(),
                n == ms.len(),
                i <= n,
                forall|j: int|
                    0 <= j < i && #[trigger] t.parents[j] is None && (ms[j].operation
                        == OperationType::InputTransaction || ms[j].operation
                        == OperationType::OutputTransaction || is_control_op(ms[j].operation)) ==> {
                        &&& ms[j].device_id is Some
                        &&& ms[j].endpoint_id is Some
                        &&& ms[j].data is Some
                        &&& is_control_op(ms[j].operation) ==> t.children[j].len() > 0
                    },
            decreases n - i,
        {
            let id: usize = i + 1;
            let parent = tree_parent(&packets, id);
            let p = tree_get(&packets, id);
            assert(p@ == ms[i as int]);
            let control = is_control_operation(p.operation);
            if parent.is_none() && (p.operation == OperationType::InputTransaction || p.operation
                == OperationType::OutputTransaction || control) {
                assert(t.parents[i as int] is None);
                if p.device_id.is_none() || p.endpoint_id.is_none() || p.data.is_none() {
                    assert(!urbs_ready(ms, t));
                    return false;
                }
                if control && tree_first_child(&packets, id).is_none() {
                    assert(t.children[i as int].len() == 0);
                    assert(!urbs_ready(ms, t));
                    return false;
                }
            }
            i = i + 1;
        }
        true
    }
}

fn is_control_operation(op: OperationType) -> (b: bool)
    ensures
        b == is_control_op(op),
{
    match op {
        OperationType::ControlTransfer | OperationType::GetDeviceDescriptor
        | OperationType::GetConfigurationDescriptor | OperationType::SetConfiguration
        | OperationType::SetAddress | OperationType::GetHubDescriptor
        | OperationType::GetDeviceQualifierDescriptor | OperationType::GetStringDescriptor => true,
        _ => false,
    }
}

impl TotalPhaseReader {
    /// What reading a packet's data back gives: nothing for a packet without a
    /// data offset, otherwise an empty buffer (the read fills a buffer of
    /// length zero, whatever the packet's length).
    pub fn read_data(&mut self, packet: USBPacket) -> (r: Option<Vec<u8>>)
        requires
            packet.data_offset is Some ==> packet.length is Some,
        ensures
            *final(self) == *old(self),
            match r {
                Some(v) => packet.data_offset is Some && v@ == Seq::<u8>::empty(),
                None => packet.data_offset is None,
            },
    {
        if packet.data_offset.is_none() {
            return None;
        }
        let result: Vec<u8> = Vec::new();
        return Some(result);
    }
}

impl<'a> USBPacket<'a> {
    /// The index, device and endpoint of the packet as decimal text, under the
    /// keys `idx`, `dev` and `ep`.
    /// What the map holds is stated for keys that follow the hash table model
    /// (Verus assumes that of no `&str`).
    pub fn dict_data(&self) -> (m: std::collections::HashMap<&str, String>)
        requires
            self.device_id is Some,
            self.endpoint_id is Some,
        ensures
            vstd::std_specs::hash::obeys_key_model::<&str>() ==> {
                &&& m@.dom() == set!["idx", "dev", "ep"]
                &&& m@["idx"]@ == decimal_string(self.index as nat)
                &&& m@["dev"]@ == decimal_string(self.device_id.unwrap() as nat)
                &&& m@["ep"]@ == decimal_string(self.endpoint_id.unwrap() as nat)
            },
    {
        proof {
            reveal_strlit("idx");
            reveal_strlit("dev");
            reveal_strlit("ep");
        }
        let mut m: std::collections::HashMap<&str, String> = std::collections::HashMap::new();
        m.insert("idx", u64_to_string(self.index));
        m.insert("dev", u64_to_string(self.device_id.unwrap() as u64));
        m.insert("ep", u64_to_string(self.endpoint_id.unwrap() as u64));
        m
    }
}

/// The value of `key` in a row given as a map from column names, or `""`.
/// What it gives is stated for keys that follow the hash table model.
fn record_field<'r>(row: &'r std::collections::HashMap<String, String>, key: &str) -> (r: &'r str)
    ensures
        vstd::std_specs::hash::obeys_key_model::<String>() ==> {
            ||| exists|v: String|
                vstd::std_specs::hash::maps_borrowed_key_to_value(row@, key, v) && r@ == v@
            ||| !vstd::std_specs::hash::contains_borrowed_key(row@, key) && r@ == ""@
        },
{
    match row.get(key) {
        Some(s) => s.as_str(),
        None => "",
    }
}

} // verus!
