//! A local ledger for exact CNY income, expenses, linked refunds and foreign-card purchases that
//! wait for their bank-confirmed CNY amount.
//!
//! The crate holds every rule of the ledger: amounts, dates and occurrence times, the tables and
//! the operations on them, filters and summaries, archives, release notices and the texts shown
//! to a person. Files, the database, the network and the command line are left to the program
//! around it.
pub mod accounting;
pub mod answer_laws;
pub mod archive;
pub mod calendar;
pub mod command;
pub mod command_laws;
pub mod entry_laws;
pub mod error;
pub mod foreign;
pub mod laws;
pub mod ledger;
pub mod list_laws;
pub mod models;
pub mod money;
pub mod occurrence;
pub mod order;
pub mod paths;
pub mod pending;
pub mod pending_query;
pub mod purchase_laws;
pub mod query;
pub mod report;
pub mod soundness;
pub mod stamp;
pub mod store;
pub mod summary;
pub mod text;
pub mod update;
pub mod value_laws;
