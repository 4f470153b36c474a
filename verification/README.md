# qvm-ctl

`qvm` creates, boots, lists, stops and deletes QEMU/KVM virtual machines, each kept in
a directory of its own (`$QVM_DIR/<name>`, by default `~/vms/<name>`) with its disk,
UEFI variables, TPM state and `vm.conf`.

The decisions of the tool are a library verified with Verus (`src/`):

- `text`, `paths`: trimming, decimal rendering and parsing as `str::parse` does it,
  splitting, and Unix path joining.
- `config`: reading and writing `vm.conf`, with the proof that loading what was saved
  gives the same configuration back; the defaults taken from the environment.
- `vm`, `process`, `tpm`, `port`, `ovmf`, `qemu`: VM names, the files of a VM, pid
  files, the QEMU and `swtpm` command lines, firmware selection.
- `commands`: the decisions of each subcommand, among them the stop procedure as a
  state machine (`SIGTERM`, up to ten polls, then `SIGKILL`) with its progress proved.
- `display`, `error`, `cli`: message lines, error texts, the command-line types.

`app/` is the program around it: argument parsing with `clap`, the file system, the
environment, child processes, the launch lock (`fd-lock`) and the terminal.
