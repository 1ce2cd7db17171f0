# ease

The logic of a small RISC-V kernel for two harts, verified with Verus.

`src/` is the verified library. Each module keeps a piece of kernel state
as plain data with a specification, and each operation takes what the
hardware reports (the hart it runs on, the timer reading, register values)
as arguments and returns what the hardware must then do:

- memory: the free-list heap allocator (`freelist`), buddy-sized regions
  (`region`), process memory maps and their protection entries (`usermem`),
  program loading (`userloader`), stack guards (`stack`);
- collections: the generational arena (`arena`), the single-producer
  single-consumer queue (`spsc`);
- scheduling: thread and process tables (`threads`, `process`), the stride
  scheduler (`sched`), deadlines (`deadline`), per-hart records (`percpu`),
  inter-processor interrupts (`ipi`), the timer (`timer`), trap decisions
  (`trap`), file descriptors (`fd`);
- synchronisation: interrupt masking (`sync`), spin locks (`spinlock`),
  completions (`completion`), wait queues (`waitqueue`);
- the shell: escape sequences (`vt_parse`), key events (`keyboard`), the
  line editor (`line_editor`), the text console (`console`), the console
  font (`font`), command output (`commands`), text comparison (`text`);
- diagnostics: interrupts-off accounting (`irqsoff`), function profiling
  (`profile`), scheduler snapshots (`trace`).

`tests/` exercises the library on concrete values.

`app/` is a host program around the library: it stands in for the
hardware, boots the scheduler on one hart, runs the shell on the terminal
with the files of the current directory, and prints the diagnostic reports.
