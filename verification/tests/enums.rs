//! Enumeration wire-value mappings.

use ibmad::enums::{IbNodeType, IbPortLinkLayerState, IbPortPhyState, MadClasses, SmiAttrID};
use ibmad::ib_user_mad_reg_req;

#[test]
fn phy_state_mapping() {
    assert_eq!(IbPortPhyState::try_from(1), Ok(IbPortPhyState::Sleep));
    assert_eq!(IbPortPhyState::try_from(2), Ok(IbPortPhyState::Polling));
    assert_eq!(IbPortPhyState::try_from(3), Ok(IbPortPhyState::Disabled));
    assert_eq!(
        IbPortPhyState::try_from(4),
        Ok(IbPortPhyState::PortConfigurationTraining)
    );
    assert_eq!(IbPortPhyState::try_from(5), Ok(IbPortPhyState::LinkUp));
    assert_eq!(
        IbPortPhyState::try_from(6),
        Ok(IbPortPhyState::LinkErrorRecovery)
    );
    assert_eq!(IbPortPhyState::try_from(7), Ok(IbPortPhyState::PhyTest));
    assert_eq!(IbPortPhyState::try_from(0), Err(()));
    assert_eq!(IbPortPhyState::try_from(8), Err(()));
    // the total decoder maps anything else to Unknown
    assert_eq!(IbPortPhyState::from_u8(9), IbPortPhyState::Unknown);
    assert_eq!(IbPortPhyState::from_u8(5), IbPortPhyState::LinkUp);
}

#[test]
fn link_layer_state_mapping() {
    assert_eq!(IbPortLinkLayerState::try_from(0), Ok(IbPortLinkLayerState::Nop));
    assert_eq!(IbPortLinkLayerState::try_from(1), Ok(IbPortLinkLayerState::Down));
    assert_eq!(IbPortLinkLayerState::try_from(2), Ok(IbPortLinkLayerState::Init));
    assert_eq!(IbPortLinkLayerState::try_from(3), Ok(IbPortLinkLayerState::Armed));
    assert_eq!(IbPortLinkLayerState::try_from(4), Ok(IbPortLinkLayerState::Active));
    assert_eq!(
        IbPortLinkLayerState::try_from(5),
        Ok(IbPortLinkLayerState::ActiveDeferred)
    );
    assert_eq!(IbPortLinkLayerState::try_from(6), Err(()));
}

#[test]
fn node_type_mapping() {
    assert_eq!(IbNodeType::try_from(1), Ok(IbNodeType::CA));
    assert_eq!(IbNodeType::try_from(2), Ok(IbNodeType::Switch));
    assert_eq!(IbNodeType::try_from(3), Ok(IbNodeType::Router));
    assert_eq!(IbNodeType::try_from(4), Ok(IbNodeType::Rnic));
    assert_eq!(IbNodeType::try_from(0), Err(()));
    assert_eq!(IbNodeType::try_from(5), Err(()));
    assert_eq!(IbNodeType::Switch.value(), 2);
}

#[test]
fn class_and_attribute_values() {
    assert_eq!(MadClasses::DirecteRoute.value(), 0x81);
    assert_eq!(SmiAttrID::NodeDesc.value(), 0x10);
    assert_eq!(SmiAttrID::NodeInfo.value(), 0x11);
    assert_eq!(SmiAttrID::PortInfo.value(), 0x15);
}

#[test]
fn agent_registration_defaults() {
    // subnet-management classes register on queue pair 0, others on 1
    assert_eq!(ib_user_mad_reg_req::for_mgmt_class(0x01).qpn, 0);
    assert_eq!(ib_user_mad_reg_req::for_mgmt_class(0x81).qpn, 0);
    assert_eq!(ib_user_mad_reg_req::for_mgmt_class(0x04).qpn, 1);
    let req = ib_user_mad_reg_req::for_mgmt_class(0x81);
    assert_eq!(req.mgmt_class, 0x81);
    assert_eq!(req.mgmt_class_version, 1);
    assert_eq!(req.id, 0);
}
