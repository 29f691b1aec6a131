//! Register access for SVD-described peripherals: field masks, register
//! layout, the SVD device model read from its XML document, the code
//! generator built on it, and the text forms that the tools print.

pub mod regs;
pub mod util;
pub mod access;
pub mod foo;
pub mod omap;
pub mod ast;
pub mod text;
pub mod device;
pub mod common;
pub mod layout;
pub mod emit;
pub mod generator;
pub mod token;
pub mod reader;
pub mod parser;
pub mod device_code;
pub mod fromxml;
pub mod ioregs;
pub mod dump;
pub mod svd_xml;
