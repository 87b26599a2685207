//! The services that answer questions about the stock and about the providers'
//! offers.

pub mod provider;
pub mod stock;
