//! Verified state logic of the DabDub settlement contracts: admin
//! credentials, role-based access, merchant registry, batch payments,
//! platform statistics and Merkle-root reconciliation.

pub mod account;
pub mod host;
pub mod admin_auth;
pub mod batch_payments;
pub mod merchant_registry;
pub mod platform_stats;
pub mod rbac_access;
pub mod reconciliation;
