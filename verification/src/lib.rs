//! Reading the key bindings of a sway configuration and filtering them for
//! display: comments and options are skipped, `$variables` are resolved, mode
//! blocks are followed, and modifiers get the names and symbols shown to the
//! user.
pub mod cli;
pub mod config;
pub mod keys;
pub mod laws;
pub mod lexer;
pub mod subst;
pub mod symbol_laws;
pub mod symbols;
pub mod text;
pub mod vars;
pub mod viewer;

pub use cli::{config_from_field, config_from_swaymsg_output, config_path, dump_line, wants_dump, wants_help};
pub use config::{parse_bindsym, parse_config, Binding};
pub use keys::{display_keys, resolve_keys};
pub use lexer::{first_token_and_rest, quoted_token, strip_comment};
pub use subst::substitute_vars;
pub use symbols::{key_chip_symbols, key_to_symbol};
pub use vars::Vars;
pub use viewer::{matches_lowered, App, Message};
