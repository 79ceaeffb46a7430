//! A path-based resource router.
//!
//! An ordered list of compiled path patterns, each bound to a handler and an
//! optional guard payload, is built once through a builder and then queried
//! once per incoming path: the first pattern (in registration order) that
//! matches the unconsumed part of a path cursor wins, its named placeholders
//! are captured into the cursor, and the handler and its numeric id are
//! returned.

pub mod encoding;
pub mod path;
pub mod pattern;
pub mod router;
pub mod strutil;

pub use encoding::Encoding;
pub use path::Path;
pub use pattern::PatternError;
pub use pattern::ResourceDef;
pub use router::ResourceId;
pub use router::ResourceInfo;
pub use router::Router;
pub use router::RouterBuilder;
