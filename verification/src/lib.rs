//! Verified decision logic of a host agent that applies Neutron port snapshots.

pub mod acceptance;
pub mod acl_cidr;
pub mod acl_gate;
pub mod acl_laws;
pub mod acl_overlap;
pub mod acl_plan;
pub mod acl_ports;
pub mod acl_rules;
pub mod acl_selector;
pub mod admission;
pub mod admission_laws;
pub mod apply;
pub mod apply_laws;
pub mod committed;
pub mod counters;
pub mod datapath_laws;
pub mod delete;
pub mod delete_laws;
pub mod domain_laws;
pub mod domains;
pub mod health;
pub mod health_laws;
pub mod host;
pub mod intent;
pub mod inventory;
pub mod inventory_laws;
pub mod model;
pub mod ordered;
pub mod packet_laws;
pub mod payload;
pub mod plan;
pub mod plan_laws;
pub mod port_laws;
pub mod reconcile;
pub mod recovery;
pub mod recovery_laws;
pub mod report_laws;
pub mod resolution_laws;
pub mod scope;
pub mod status;
pub mod status_laws;
pub mod status_response;
pub mod status_v1;
pub mod submit;
pub mod text;
pub mod text_laws;
pub mod transaction;
