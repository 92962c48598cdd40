//! Verified core of a bridge that turns network video sources into JPEG
//! streams: pixel conversion, the per-source capture worker's decisions,
//! the receiver registry, subscriber sessions and per-source statistics.
//!
//! The library holds no thread, socket or clock of its own. Whatever
//! blocks or talks to the outside is its caller's: the worker and the
//! session are state machines that are told what happened and answer what
//! to do next.

pub mod convert;
pub mod encode;
pub mod error;
pub mod frame;
pub mod listing;
pub mod receiver;
pub mod registry;
pub mod session;
pub mod stats;
pub mod types;
pub mod worker;

pub use convert::uyvy_to_yuv420_planar;
pub use encode::{
    can_encode, encode_frame, EncodeBuffers, EncodeError, EncodeJob, EncodePlan, PixelLayout,
};
pub use error::NdiError;
pub use frame::{repair_stride, video_data_len};
pub use listing::{format_source_line, list_report, source_names, sources_json};
pub use receiver::{JpegFrame, SharedReceiver};
pub use registry::{Lookup, ReceiverManager, ReceiverPlan};
pub use session::{RecvOutcome, Session, SessionAction, SessionEvent, SessionPhase};
pub use stats::{SourceStats, StatsSnapshot};
pub use types::{FourCCVideoType, FrameType, RecvBandwidth, RecvColorFormat, Source};
pub use worker::{EncodeOutcome, Worker, WorkerAction, WorkerEvent, WorkerPhase};
