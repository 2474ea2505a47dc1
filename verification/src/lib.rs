//! Verified core of a first-in-first-out queue that lets goals of ROS 2
//! action servers execute one at a time.

pub mod turn;
pub use turn::{SignalLog, TurnReceiver, TurnSender, TurnSent};

pub mod fifo_queue;
pub use fifo_queue::{
    after_claim, after_enqueue, after_live_releases, after_release, channels_of, idle_queue,
    lined_channels, queue_wf, release_outcome, release_signals, signalled_channels,
    FifoQueueInternal, QueueView,
};

pub mod serve;
pub use serve::{serve_start, serve_step, ServeAction, ServeEvent, ServePhase};

pub mod active_goal;
pub use active_goal::{GoalActivity, GoalStatus, Termination};
