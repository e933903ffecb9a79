//! Energy performance of buildings (EN 15603 / ISO 52000, CTE DB-HE): the
//! weighted energy balance of the energy carriers of a building, from the
//! energy that its services use and that it produces at each time step and
//! from the weighting factors of each carrier.
//!
//! All quantities are whole numbers, so that every sum and product is
//! exact and the balance does not depend on the order of the sums:
//!
//! - energies are whole energy units; the files of components hold
//!   decimal numbers, which are read to the nearest thousandth, so that one
//!   energy unit is one thousandth of the unit of the file;
//! - weighting factors, the export factor `k_exp`, the reference area and
//!   ratios are given in thousandths;
//! - weighted energy is the product of an energy, a factor and the scale of
//!   `k_exp`, so that `balance::WEIGHTED_SCALE` units of weighted energy
//!   make one energy unit.
//!
//! Where a quantity is shared in proportion, the shares are rounded down to
//! whole units in such a way that they add up to the quantity.
pub mod balance;
pub mod cte;
pub mod decimal;
pub mod engine;
pub mod error;
pub mod flows;
pub mod laws;
pub mod meta;
pub mod names;
pub mod outcome;
pub mod parse;
pub mod partition;
pub mod performance;
pub mod prepare;
pub mod rennrenco2;
pub mod report;
pub mod scaling;
pub mod series;
pub mod settings;
pub mod shares;
pub mod text;
pub mod types;
pub mod wfactors;

pub use error::EpbdError;
pub use performance::{energy_performance, Balance};
pub use rennrenco2::RenNrenCo2;
pub use types::{
    CSubtype, CType, Carrier, Component, Components, Dest, Factor, Factors, Meta, Service, Source,
    Step,
};
