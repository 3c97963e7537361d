//! A fluent builder of indented text.
//!
//! A builder has a sink, a line break and a stack of indents. Every operation takes the
//! builder and hands it back with the operation done, or fails; a chain of operations
//! stops at the first failure. [`StringBuilder`] builds in a string of its own,
//! [`FormatterBuilder`] writes to the formatter of a `fmt`. What an operation does is
//! stated over [`TextModel`], the view of every builder; what `enumerate`, `delimit`
//! and `append_delimit` do is stated over the calls they make, in [`relay`]; and
//! [`laws`] holds what follows for operations in a row.

pub mod appendable;
pub mod errors;
pub mod formatter_builder;
pub mod laws;
pub mod model;
pub mod relay;
pub mod render;
pub mod sink;
pub mod string_builder;
pub mod text_builder;
pub mod text_builder_config;

pub use appendable::{Appendable, NotAppendable};
pub use errors::TextError;
pub use formatter_builder::FormatterBuilder;
pub use model::TextModel;
pub use sink::Sink;
pub use string_builder::StringBuilder;
pub use text_builder::{TextBuilder, TextFormatterBuilder};
pub use text_builder_config::TextBuilderConfig;
