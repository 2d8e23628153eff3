//! Power-policy device model.
//!
//! A [`device::Device`] owns the authoritative state of one power port together
//! with the command channel that links the policy arbiter to the port's driver.
//! Every operation is a synchronous step on exclusively borrowed data, so a
//! caller that shares a device between tasks only has to guard it and wait
//! between steps.

pub mod action;
pub mod capability;
pub mod deferred;
pub mod device;
pub mod error;
pub mod intrusive_list;

pub use capability::{ConsumerPowerCapability, PowerCapability, ProviderPowerCapability};
pub use device::DeviceId;
pub use error::Error;
