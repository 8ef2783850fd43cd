//! Link definitions: a link pairs one real-bus endpoint with one simulated-bus
//! endpoint, identified by a name that is unique within its bus kind.
use vstd::prelude::*;
use crate::BusKind;
use crate::bytes_eq;

verus! {

/// A configured UART link: a real serial port paired with a named simulated
/// UART channel.
#[derive(Debug, PartialEq, Eq)]
pub struct UartLink {
    /// Link name, as the operator types it.
    pub name: Vec<u8>,
    /// Path of the real serial port device.
    pub real_port_path: String,
    /// Name of the simulated UART bus on the simulation engine.
    pub simulated_bus_name: String,
}

/// A configured I2C link: a real I2C device paired with a simulated I2C bus
/// and slave address.
#[derive(Debug, PartialEq, Eq)]
pub struct I2cLink {
    /// Link name, as the operator types it.
    pub name: Vec<u8>,
    /// Path of the real I2C adapter device.
    pub real_device_path: String,
    /// Address of the real slave device on that adapter.
    pub real_slave_address: u16,
    /// Name of the simulated I2C bus on the simulation engine.
    pub simulated_bus_name: String,
    /// Address this bridge answers to on the simulated bus.
    pub simulated_slave_address: u16,
}

/// One link definition of either bus kind.
#[derive(Debug, PartialEq, Eq)]
pub enum LinkConfig {
    Uart(UartLink),
    I2c(I2cLink),
}

impl LinkConfig {
    /// The bus kind this link belongs to.
    pub open spec fn kind(&self) -> BusKind {
        match self {
            LinkConfig::Uart(_) => BusKind::Uart,
            LinkConfig::I2c(_) => BusKind::I2c,
        }
    }

    /// The link's name.
    pub open spec fn name(&self) -> Seq<u8> {
        match self {
            LinkConfig::Uart(u) => u.name@,
            LinkConfig::I2c(c) => c.name@,
        }
    }

    /// The bus kind this link belongs to.
    pub fn kind_of(&self) -> (k: BusKind)
        ensures
            k == self.kind(),
    {
        match self {
            LinkConfig::Uart(_) => BusKind::Uart,
            LinkConfig::I2c(_) => BusKind::I2c,
        }
    }

    /// The link's name.
    pub fn name_ref(&self) -> (n: &Vec<u8>)
        ensures
            n@ == self.name(),
    {
        match self {
            LinkConfig::Uart(u) => &u.name,
            LinkConfig::I2c(c) => &c.name,
        }
    }

    /// True when this link has the given kind and name.
    pub fn is_named(&self, kind: BusKind, name: &[u8]) -> (r: bool)
        ensures
            r == (self.kind() == kind && self.name() == name@),
    {
        match self {
            LinkConfig::Uart(u) => kind == BusKind::Uart && bytes_eq(u.name.as_slice(), name),
            LinkConfig::I2c(c) => kind == BusKind::I2c && bytes_eq(c.name.as_slice(), name),
        }
    }
}

} // verus!
