# brink

A Linux process sandbox: untrusted programs run behind a cgroup, namespaces of their
own, Landlock rules, a drop of all capabilities and a seccomp filter.

* `src/` is the library. It decides everything that the sandbox does and is verified
  with Verus: the contract of each function says what it decides, and the public proof
  functions say what follows from it for the sandbox as a whole.
* `app/` is the program `brink-run`. It reads a job as JSON, carries out what the
  library decides, and writes the result as JSON.
* `tests/` runs the library on examples.

Some of what is proved:

* The system call filter, run on any system call, answers as the stated policy does
  (`seccomp::filter_program`).
* No mount that the sandbox makes is left writable but the workspace
  (`mount::only_the_workspace_is_writable`).
* A program that is started has every restriction behind it
  (`namespace::program_starts_fully_restricted`).
* A child goes on only when it is in its cgroup and its user is mapped
  (`fork_server::children_go_on_contained`).
* Nothing starts without its limits (`supervisor::nothing_starts_without_its_limits`).
* From `execve` on every wait has a limit, and the cgroup is killed exactly when the
  time is up (`supervisor::every_wait_has_a_limit`,
  `supervisor::killed_exactly_when_time_is_up`).
* A report tells what happened, and the cgroup is removed however a run ends
  (`supervisor::reports_tell_what_happened`,
  `supervisor::cgroups_are_removed_in_the_end`).
* The two output streams are never mixed (`collect::streams_are_never_mixed`).
* What is read from a message is what was written to it
  (`ipc::decoding_undoes_encoding`, `ipc::response_round_trip`).

The library trusts three calls into other code: `nix::errno::Errno::from_raw`, the
`Display` of `nix::errno::Errno`, and `String::from_utf8_lossy`.
