# rove

The control plane of the rove robot, as a verified library and three programs
around it.

- `src/command_router`: packets of operators and of autonomy become commands to
  the drive nodes. An emergency stop holds until errors are cleared, an operator
  overrides a running strategy, two strategies never run at the same time, and
  drives are set up only when it is needed.
- `src/control_interface`: the glue between the operator's twists, the inverse
  kinematics engine and the arm. An engine that falls silent stops the arm.
- `src/multiplexer`: several inputs with priorities, one stream out. The best
  fresh packet wins, junk is dropped, a stale input gives way.
- `src/wire.rs`, `src/encode.rs`, `src/frame.rs`, `src/json.rs`, `src/text.rs`,
  `src/scalar.rs`: the formats that these share.

Every function in `src/` states what it does and is proved to do it. What spans
several functions is stated as a public proof function next to them. Floating
point numbers pass through the library as bit patterns; the programs in `app/`
compute with them, and do all input and output.

`serde_json` reads and writes JSON, and `prost` reads the integers and the keys
of protobuf messages. What is taken on trust of them is stated at the functions
that call them, in `src/json.rs` and `src/wire.rs`.

The tags of telemetry, the numbers of the solver modes and the tags in
`app/control_codec.rs` are assumed. They are to be held against the schemas that
the robot uses.
