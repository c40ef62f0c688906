# rw-vn100

Read and configure a **VectorNav VN-100** IMU over a serial port, with the logic
verified in [Verus](https://github.com/verus-lang/verus).

- `src/` is the library. Everything it does is stated in `requires` / `ensures`
  contracts and proved: the protocol's framing and checksums, the scanners that
  find lines and frames in a stream, the command languages, and the dialogues that
  run a command against a device.
- `app/` is the program around it: the serial port, the clock, the terminal, and
  the formatting of floating-point numbers.
- `tests/` runs the library on concrete values.

## The two tools

The program is `rw-vn100`; started under the name `rdwr_vn100` it takes that
tool's commands.

| `rw-vn100` | |
|---|---|
| `get-ascii`, `set-ascii=<PRESET\|off>` | ASCII async preset (register 6) |
| `set-ascii-hz=<HZ>` | ASCII async rate (register 7) |
| `get-bin`, `set-bin-fields=<FIELDS>`, `set-bin-hz=<HZ>`, `set-bin=on\|off` | binary output (register 75) |
| `baud <NEW>` | serial baud (register 5), switched in place and verified |
| `rrg <ID>`, `wrg <ID> <P1> [P2...]` | any register |
| `bench [SECS]` | measure what is already streaming; writes nothing |
| `reset`, `factory-reset` | reboot, restore defaults |

`rdwr_vn100` has `get-hz` / `set-hz <HZ>` for the rate, and a `bench` that
configures an output, measures it and restores what was there:
`bench [--bin] [--hz HZ] [--secs S] [--fields LIST] [--serial-port P] [--type NAME]`.

`--persist` on a setting saves it to flash. `--port` (default `/dev/ttyAMA0`) and
`--baud` (default 115200, the rate the device talks at *now*) go with every
command.

## What is proved

Each public function's contract gives its result exactly, error messages included.
Beyond that, the public proof functions named `law_...` state what holds of the
library as a whole. Some of them:

- A built command line verifies, and a line is accepted with its own checksum only
  (`proto::law_built_command_verifies`, `law_checksum_accepts_only_own_sum`).
- A message and two bytes have the CRC zero exactly when those are its CRC
  (`proto::law_crc_accepts_only_own_crc`).
- A reply is found though binary frames stand before it on its line
  (`transact::law_reply_after_junk`), however the stream is split across reads and
  whatever empty or timed-out reads come between
  (`transact::law_reads_are_interchangeable`).
- What a bench counts depends on the bytes of the stream alone, not on the reads
  that brought them (`bench::law_measure_depends_on_bytes_alone`), and every frame
  and message is counted (`law_every_frame_is_counted`,
  `law_every_message_is_counted`).
- A command is sent at most the allowed number of times, and an answer ends it
  (`transact::law_retry_gives_up`, `law_retry_stops_at_an_answer`).
- A bench that configures puts back what was there
  (`configure::law_binary_bench_restores`, `law_ascii_bench_restores`,
  `law_refused_configuration_restores`).
- A field-mask write never toggles streaming, and a toggle never touches the mask
  (`output::law_mask_streaming_and_rate_are_orthogonal`).
- Command echoes and errors are no data messages
  (`line::law_framed_message_is_async`).
- The names of an accepted field list are accepted again and select the same fields
  (`fields::law_field_names_read_back`), and decoding a frame splits at any field
  (`report::law_sample_splits_anywhere`).
- Where `--port` stands on a command line makes no difference
  (`law_port_may_stand_anywhere` of `cli` and `rdwr`).
- Every example in the usage texts is accepted (`law_examples_are_accepted` of `cli`
  and `rdwr`).
- Settings are saved to flash exactly when that was asked for
  (`run::law_saved_only_when_asked`), a baud rate only once it was verified.
- Every session ends (`run::law_sessions_end`).

## What is trusted

Four functions of the standard library that Verus has no specification for, each
with a doc comment on what is claimed of it: `String::push` (`text`), and
`String::from_utf8_lossy`, `str::to_lowercase` and the `Debug` form of a text
(`unicode`). The program in `app/` is ordinary Rust.
