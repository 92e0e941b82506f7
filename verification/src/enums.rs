//! State and identifier enumerations shared by the discovery engine and
//! the simulator.

use vstd::prelude::*;

verus! {

/// Physical state of a port as carried in the PortInfo record.
///
/// The wire mapping is 1 = Sleep, 2 = Polling, 3 = Disabled, 4 = training,
/// 5 = LinkUp, 6 = LinkErrorRecovery, 7 = PhyTest; any other value decodes
/// to `Unknown`.
#[derive(Debug, Clone, Copy, PartialEq, Eq, Structural)]
pub enum IbPortPhyState {
    Unknown,
    Sleep,
    Polling,
    Disabled,
    PortConfigurationTraining,
    LinkUp,
    LinkErrorRecovery,
    PhyTest,
}

impl IbPortPhyState {
    /// The wire value a known state encodes to.
    pub open spec fn spec_value(self) -> u8 {
        match self {
            IbPortPhyState::Sleep => 1,
            IbPortPhyState::Polling => 2,
            IbPortPhyState::Disabled => 3,
            IbPortPhyState::PortConfigurationTraining => 4,
            IbPortPhyState::LinkUp => 5,
            IbPortPhyState::LinkErrorRecovery => 6,
            IbPortPhyState::PhyTest => 7,
            IbPortPhyState::Unknown => 0,
        }
    }

    /// Decodes a wire value; values outside 1..=7 yield an error.
    pub fn try_from(value: u8) -> (r: Result<Self, ()>)
        ensures
            match r {
                Ok(s) => 1 <= value <= 7 && s.spec_value() == value,
                Err(()) => value == 0 || value > 7,
            },
    {
        match value {
            1 => Ok(IbPortPhyState::Sleep),
            2 => Ok(IbPortPhyState::Polling),
            3 => Ok(IbPortPhyState::Disabled),
            4 => Ok(IbPortPhyState::PortConfigurationTraining),
            5 => Ok(IbPortPhyState::LinkUp),
            6 => Ok(IbPortPhyState::LinkErrorRecovery),
            7 => Ok(IbPortPhyState::PhyTest),
            _ => Err(()),
        }
    }

    /// Decodes a wire value totally, mapping values outside 1..=7 to
    /// `Unknown`.
    pub fn from_u8(value: u8) -> (r: Self)
        ensures
            1 <= value <= 7 ==> r.spec_value() == value && r != IbPortPhyState::Unknown,
            value == 0 || value > 7 ==> r == IbPortPhyState::Unknown,
    {
        match Self::try_from(value) {
            Ok(s) => s,
            Err(()) => IbPortPhyState::Unknown,
        }
    }
}

/// Link-layer (logical) state of a port as carried in the PortInfo record.
#[derive(Debug, Clone, Copy, PartialEq, Eq, Structural)]
pub enum IbPortLinkLayerState {
    Unknown,
    Nop,
    Down,
    Init,
    Armed,
    Active,
    ActiveDeferred,
}

impl IbPortLinkLayerState {
    /// The wire value a known state encodes to.
    pub open spec fn spec_value(self) -> u8 {
        match self {
            IbPortLinkLayerState::Nop => 0,
            IbPortLinkLayerState::Down => 1,
            IbPortLinkLayerState::Init => 2,
            IbPortLinkLayerState::Armed => 3,
            IbPortLinkLayerState::Active => 4,
            IbPortLinkLayerState::ActiveDeferred => 5,
            IbPortLinkLayerState::Unknown => 6,
        }
    }

    /// Decodes a wire value; values above 5 yield an error.
    pub fn try_from(value: u8) -> (r: Result<Self, ()>)
        ensures
            match r {
                Ok(s) => value <= 5 && s.spec_value() == value && s
                    != IbPortLinkLayerState::Unknown,
                Err(()) => value > 5,
            },
    {
        match value {
            0 => Ok(IbPortLinkLayerState::Nop),
            1 => Ok(IbPortLinkLayerState::Down),
            2 => Ok(IbPortLinkLayerState::Init),
            3 => Ok(IbPortLinkLayerState::Armed),
            4 => Ok(IbPortLinkLayerState::Active),
            5 => Ok(IbPortLinkLayerState::ActiveDeferred),
            _ => Err(()),
        }
    }
}

/// Kind of a fabric node as carried in the NodeInfo record.
#[derive(Debug, Clone, Copy, PartialEq, Eq, Structural)]
pub enum IbNodeType {
    CA,
    Switch,
    Router,
    Rnic,
}

impl IbNodeType {
    /// The wire value the node type encodes to.
    pub open spec fn spec_value(self) -> u8 {
        match self {
            IbNodeType::CA => 1,
            IbNodeType::Switch => 2,
            IbNodeType::Router => 3,
            IbNodeType::Rnic => 4,
        }
    }

    /// Decodes a wire value; values outside 1..=4 yield an error.
    pub fn try_from(value: u8) -> (r: Result<Self, ()>)
        ensures
            match r {
                Ok(t) => 1 <= value <= 4 && t.spec_value() == value,
                Err(()) => value == 0 || value > 4,
            },
    {
        match value {
            1 => Ok(IbNodeType::CA),
            2 => Ok(IbNodeType::Switch),
            3 => Ok(IbNodeType::Router),
            4 => Ok(IbNodeType::Rnic),
            _ => Err(()),
        }
    }

    /// The wire value the node type encodes to.
    pub fn value(self) -> (r: u8)
        ensures
            r == self.spec_value(),
    {
        match self {
            IbNodeType::CA => 1,
            IbNodeType::Switch => 2,
            IbNodeType::Router => 3,
            IbNodeType::Rnic => 4,
        }
    }
}

/// Management classes the discovery engine speaks.
#[derive(Debug, Clone, Copy, PartialEq, Eq, Structural)]
pub enum MadClasses {
    DirecteRoute,
}

impl MadClasses {
    /// The wire value of the management class.
    pub open spec fn spec_value(self) -> u8 {
        match self {
            MadClasses::DirecteRoute => 0x81,
        }
    }

    /// The wire value of the management class.
    pub fn value(self) -> (r: u8)
        ensures
            r == self.spec_value(),
    {
        match self {
            MadClasses::DirecteRoute => 0x81,
        }
    }
}

/// Subnet-management attribute identifiers used by the discovery engine.
#[derive(Debug, Clone, Copy, PartialEq, Eq, Structural)]
pub enum SmiAttrID {
    NodeDesc,
    NodeInfo,
    PortInfo,
}

impl SmiAttrID {
    /// The wire value of the attribute identifier.
    pub open spec fn spec_value(self) -> u16 {
        match self {
            SmiAttrID::NodeDesc => 0x10,
            SmiAttrID::NodeInfo => 0x11,
            SmiAttrID::PortInfo => 0x15,
        }
    }

    /// The wire value of the attribute identifier.
    pub fn value(self) -> (r: u16)
        ensures
            r == self.spec_value(),
    {
        match self {
            SmiAttrID::NodeDesc => 0x10,
            SmiAttrID::NodeInfo => 0x11,
            SmiAttrID::PortInfo => 0x15,
        }
    }
}

} // verus!
