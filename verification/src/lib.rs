//! A protocol-neutral TCP reverse tunnel: the framing, flow control and state machines of its two
//! ends. Sockets, WebSockets and tasks stay with the programs that drive them.

pub mod backoff;
pub mod bigendian;
pub mod capacity;
pub mod client;
pub mod conn_table;
pub mod flow;
pub mod frame;
pub mod heartbeat;
pub mod reader;
pub mod relay;
pub mod request;
pub mod server;
pub mod tunnel;
pub mod writer;

pub use capacity::{
    apply_flow_ack, semaphore_for_limit, CapacityConfig, FlowAck, Window, ACK_BATCH_SIZE,
    DEFAULT_MAX_PENDING_MESSAGES_PER_CONNECTION,
};
pub use frame::{
    Frame, FrameError, FRAME_ACK, FRAME_CLOSE, FRAME_DATA, FRAME_HEADER_LEN, FRAME_OPEN,
    FRAME_WRITE_ERROR,
};
pub use heartbeat::{
    HeartbeatConfig, DEFAULT_HEARTBEAT_INTERVAL_SECS, DEFAULT_HEARTBEAT_MAX_MISSED,
};
