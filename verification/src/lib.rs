//! Verified core of the ApexSU userspace tools: module archive validation,
//! diagnostic reports and the decisions behind the kernel bridge.

pub mod text;
pub mod module_validator;
pub mod zip_archive;
pub mod diagnostics;
pub mod fixed_str;
pub mod capabilities;
pub mod app_profile;
pub mod kernel_bridge;
