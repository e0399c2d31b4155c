//! A recipient-verification mail filter library.
//!
//! For every inbound recipient address the filter decides Allow or Reject.
//! Protected addresses (those listed in the startup configuration together
//! with a shared secret key) are accepted only when the address embeds a
//! sub-address and a verification code, and the code matches a keyed digest
//! of the address's variable parts. Addresses that are not protected pass
//! through unconditionally.

use vstd::prelude::*;

pub mod address;
pub mod code;
pub mod config;
pub mod encoding;
pub mod input;
pub mod laws;
pub mod service;
pub mod text;

verus! {

/// Default character separating local part, sub-address and code.
pub const DEFAULT_SEPARATOR: char = '+';

/// Character separating a configured address from its base64 key.
pub const KEY_SEPARATOR: char = ':';

/// Lines of the configured-address file starting with this are ignored.
pub const COMMENT_CHAR: char = '#';

/// Field delimiter of the line-oriented wire protocol.
pub const PARAM_SEPARATOR: char = '|';

} // verus!
