# rclrs_action_utils

A first-in-first-out queue for ROS 2 action servers: goals are accepted or
rejected at once, and accepted goals execute one at a time, in the order in
which they were accepted. One queue can regulate several action servers.

- `src/turn.rs`: the two ends of a turn signal, tagged with their channel,
  the proof that a signal was sent, and the record of the signals sent.
- `src/fifo_queue.rs`: the queue state (`FifoQueueInternal`), its view
  `QueueView`, and the laws of first-in-first-out waking; a release passes
  over waiters that were dropped.
- `src/serve.rs`: the protocol that one goal request follows (`serve_step`),
  a model of all servers built on one queue, goal by goal, and the laws that
  at most one goal executes at a time, that goals execute in the order in
  which they asked for the turn, and that every waiting goal is served.
- `src/active_goal.rs`: the status routes of an active goal (`GoalActivity`)
  and the laws that they follow the ROS 2 goal state machine.
- `app/`: the ROS 2 side (`FifoQueue`, `FifoActionQueue`, `ActiveGoal`) that
  performs what the verified functions decide, with `rclrs` and `futures`.
