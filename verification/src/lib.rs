//! Formatting combinators for rendering sequences of values as text.
//!
//! The library renders through a streaming-write capability with advisory
//! size pre-estimation: a [`Fmt`](fmt::Fmt) value writes itself into any
//! [`Write`](sink::Write) destination under a caller-supplied strategy.
//! The two combinators are [`Separated`](combinators::Separated), which
//! interleaves a separator between the items of a slice, and
//! [`Repeated`](combinators::Repeated), which writes one value a fixed
//! number of times. [`fmt_to_new_string`](buffer::fmt_to_new_string) and
//! [`fmt_to_cleared_string`](buffer::fmt_to_cleared_string) run a
//! rendering into a fresh or reused `String` buffer.

pub mod buffer;
pub mod combinators;
pub mod fmt;
pub mod sink;

pub use buffer::fmt_to_cleared_string;
pub use buffer::fmt_to_new_string;
pub use combinators::Repeated;
pub use combinators::Separated;
pub use fmt::Fmt;
pub use fmt::Plain;
pub use sink::Write;
pub use sink::WriteError;
