//! Bulk dispatch of personalised messages: the session store, the template
//! renderer and the dispatcher that drives a batch, one recipient at a time.

pub mod text;
pub mod tokens;
pub mod template;
pub mod batch;
pub mod dispatch;
pub mod run;
pub mod session;
pub mod handshake;
pub mod deeplink;
pub mod desktop;
