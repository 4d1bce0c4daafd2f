//! Processing streams of events: one stream in a session, or many streams
//! spread over shards.

pub mod error;
pub mod independence;
pub mod laws;
pub mod processor;
pub mod single;

pub use error::AbortOnError;
pub use error::ErrorPolicy;
pub use error::SilentSkip;
pub use error::SkipErrors;
pub use processor::ListedPicks;
pub use processor::ProcessorResults;
pub use processor::ShardAssignment;
pub use processor::ShardPicker;
pub use processor::ShardResult;
pub use processor::StreamCombinator;
pub use processor::StreamProcessor;
pub use single::ProcessingSession;
