//! An attach-on-demand instrumentation agent core: it arms itself for the
//! lifecycle notifications of one induced garbage collection, captures the
//! heap object handles of one target type during that collection, counts the
//! extracted string contents, and renders a ranked duplicate-strings report
//! before the agent detaches.

pub mod counts;
pub mod ranking;
pub mod report;
pub mod session;

pub use counts::CountsMap;
pub use session::DuplicatedStringsProfiler;
