# xianscan_device

The device layer of an inference engine: it finds the graphics adapters of a machine, plans which
execution provider runs the models, bounds their threads and memory, reports the hardware status
and live figures, and decides how a session falls back when an accelerator fails.

`src/` is a library written in Verus. Its functions take what was read from the machine as plain
values and state exactly what they make of it.

| module | what it holds |
|---|---|
| `text` | trimming, splitting, searching and number reading on characters |
| `pci` | PCI bus addresses as keys |
| `gpu` | adapters, their memory by address, the enumeration cache |
| `nvidia`, `adapters` | the lists of adapters of each vendor and system |
| `plan` | the device plan and the providers of one model |
| `state` | settings, failures, and the facts about the host |
| `limits` | threads and memory limits |
| `status`, `settings` | the hardware status and what changes it |
| `session` | the order of attempts to open a session, and how each is configured |
| `process` | waiting for a child process |
| `telemetry` | live figures |

`app/` is the ordinary Rust around it: files, child processes, the environment, the database, the
ONNX runtime, and floating point.

`tests/` runs the library on concrete values.
