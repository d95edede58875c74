# minivm

`minivm` boots `N` small Linux guests under QEMU, each on its own TAP device,
and each guest calls a host-side HTTP counter once; the counter then reads `N`.

The crate is a Verus-verified library (`src/`) and a thin command-line program
around it (`app/`).

## Library (`src/`)

- `net`: IPv4 addresses (parsing and rendering) and the deterministic network
  plan: gateway, guest addresses, TAP names and MAC addresses.
- `guest`: the `newc` cpio writer and the guest initramfs image, with the
  built-in guest `/init` script.
- `qemu`: the guest kernel command line and the QEMU invocation.
- `launcher`: the launch plan (network, per-guest specification, TAP commands)
  and the step function that runs a launch.
- `backend`, `kvm`: choosing the hypervisor backend; the KVM scaffold's answers.
- `counter`: the counter behind `/healthz`, `/count` and `/incr`.
- `doctor`: the host checks and the report.
- `config`, `settings`: the configuration file's values and the effective
  settings of each subcommand.
- `wizard`: the `init` questions, their suggestions and the checks on answers.
- `text`: decimal and hexadecimal rendering and small string helpers.

Each public function carries a contract, and the properties that span
functions are proved as `law_*` proof functions.

## Program (`app/`)

Argument handling, TOML files, the HTTP server, the terminal prompts, `ip`
and QEMU processes, and the `/dev/kvm` probe.

## Commands

```text
minivm [--config PATH] init [--output PATH] [--force]
minivm [--config PATH] serve [--listen ADDR]
minivm [--config PATH] build-initramfs [--busybox PATH] [--output PATH] [--init-script PATH]
minivm [--config PATH] launch [--count N] [--kernel PATH] [--initramfs PATH] ...
minivm [--config PATH] doctor [--strict]
minivm print-guest-init
```

`launch` is run by the verified state machine `launcher::launch_step`: the
guests are started one after another and then waited for in order, the first
failure stops the launch, and every exit goes through removing the TAP devices
made (unless `--keep-taps` is given); the launch succeeds exactly when every
guest was started and exited cleanly.
