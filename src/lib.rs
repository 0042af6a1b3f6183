//! A blind-issuance anonymous credential (U-Prove style) over the Ristretto group,
//! with every protocol step verified against its algebraic contract.

pub mod group;
pub mod hash;
pub mod util_u_prove;
pub mod client_u_prove;
pub mod server_u_prove;
pub mod completeness;
