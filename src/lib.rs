//! A registry of root directories that hold git repositories: adding,
//! removing and listing its lines, reading the command line, and the text
//! shown to the user.
pub mod command;
pub mod error;
pub mod laws;
pub mod log;
pub mod path;
pub mod registry;
pub mod select;
pub mod style;
pub mod text;

pub use command::{parse_args, to_command, unused_args, CMD};
pub use error::{CollisionKind, ParseFault, RangeFault, SgrError};
pub use log::{format_log, log_header, LogLevel};
pub use path::{is_git_dir, not_a_directory, selected_path, strip_verbatim_prefix};
pub use registry::{default_header, frame_line, header_row, row, Registry};
pub use select::{line_span, list_selector, remove_selector, Selector, StrExt};
pub use style::StringExt;
