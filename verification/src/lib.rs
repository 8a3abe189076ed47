//! Staking of two currencies, RING and KTON.
//!
//! A *stash* account puts funds at stake through a *controller* account. The ledger of the
//! controller records what is bonded, for how long it was promised, and what is on its way out.
//! [`Module`](module::Module) holds the whole state; its methods are the calls that
//! accounts make and the hooks that the session and balances modules run. What has to happen in
//! other modules (locks, deposits) comes back as a list of [`Action`](types::Action)s.
pub mod calls;
pub mod eras;
pub mod genesis;
pub mod laws;
pub mod ledger;
pub mod module;
pub mod perbill;
pub mod rewards;
pub mod roles;
pub mod state;
pub mod types;
