//! The decisions behind a command-line toolbox for BGP data: time windows, filters, lookups, and
//! how what is found is shown.
pub mod decimal;
pub mod elem;
pub mod filters;
pub mod json;
pub mod length;
pub mod mrt;
pub mod output;
pub mod radar;
pub mod rpki;
pub mod time;
pub mod whois;
