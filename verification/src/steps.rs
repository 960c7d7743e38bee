//! The decision logic behind scenario steps. The steps' outside work —
//! sending requests, querying balances — happens in the driver around the
//! library; what each step decides from the values it has gathered is
//! verified here.

pub mod ledger;
