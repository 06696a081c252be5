# freezeit_daemon

The decision logic of a daemon that freezes background applications on Android, as a verified
library, and the daemon around it.

- `src/domain`, `src/config`: applications, policies, runtime processes, and the configuration
  files with their records.
- `src/app`: logs, health and compatibility reports, download deferral, the command runner, and
  the controller. `src/app/controller` holds the control pass (which applications are frozen,
  stopped, ended or thawed, and in which order), recovery after a restart, the status that is
  shown, and the laws of a pass and of the saved configuration.
- `src/protocol`: the manager's binary protocol, its JSON reports, the realtime chart, and the
  protocol of the hook in the system server.
- `src/sys`: what is read from and written to the kernel and to the ledger of stopped processes,
  as functions on texts and bytes.
- `app`: files, processes, sockets, signals and threads. It performs what the library decides.
- `tests`: examples with fixed inputs and results.

Work on the device is handed to the library as calls. A contract speaks of the calls that were
made and of their replies, in order, so that it fixes what is done for every course of replies.
