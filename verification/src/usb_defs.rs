//! The libusb control setup packet layout.
#![allow(non_camel_case_types, non_snake_case)]

use vstd::prelude::*;

verus! {

pub type uint8_t = u8;

pub type uint16_t = u16;

#[derive(Copy, Clone)]
pub struct libusb_control_setup {
    pub bmRequestType: uint8_t,
    pub bRequest: uint8_t,
    pub wValue: uint16_t,
    pub wIndex: uint16_t,
    pub wLength: uint16_t,
}

} // verus!
