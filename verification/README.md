# codeg

The decisions behind a coding-agent server, verified with Verus: moving files between a
browser and a workspace on disk, titling conversations, resolving the configuration of loop
issues, recovering them after a crash, and a few smaller rules.

## Layout

- `src/workspace/` stores uploads, sends files and directories, and packs archives. `path.rs`
  goes by the host's reading of a path, so the rules hold on every host; how a POSIX host reads
  a text is written out there too.
- `src/title_gen/` asks a model provider for a short title and tidies the reply.
- `src/loop_engine/` resolves configurations and recovers interrupted iterations at boot.
- `src/loop_phase.rs` and `src/channel_config.rs` hold the phase taxonomy and the defaults of
  a chat channel.
- `src/text.rs` and `src/number.rs` hold what the rest needs of strings and decimal numbers.
- `src/outside.rs` and `src/json.rs` hold the calls into outside crates, each with what is
  taken on trust of it.
- `app/` performs the steps that the library asks for: HTTP, files, the database, the network.
- `tests/` runs the library, with scripted file systems where it needs one.

## Steps

Work that touches the outside world is written as a machine. A function returns a step, which
says what to do next; whoever does it hands the outcome to the function that the step names.
Every such function takes any outcome and has a contract that says which step follows. The
laws in `upload_trace.rs`, `download_trace.rs`, `archive_trace.rs` and `title_gen/run.rs` hold
of every run: where an upload goes, what is written and how much, that no staging file is left
behind, that nothing outside the workspace is written or sent, what an archive holds and how it
is held to its limit, and that no title is asked for unless titles are switched on.
