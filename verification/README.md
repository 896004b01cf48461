# k1-musebook

Verified core of the boot chain for the SpacemiT K1 MUSE Book: the loader that brings
up DRAM, the CPU clusters and the NVMe disk and loads the next stages by GPT partition
name, the on-board flash server that programs the QSPI NOR and the NVMe disk over USB,
and the host tool that drives it.

## Layout

- `src/` — the library, verified with Verus. Hardware bring-up is expressed as plans:
  functions append register operations (`mmio::RegOp`) to a `Vec`, and their contracts
  state the exact sequence, with `mmio::apply_ops` giving a sequence its meaning over a
  model of the register file. Values read back from hardware are passed in as arguments.
  - `layout`, `handoff`: the DRAM map and the hand-off to the next stage.
  - `gpt`: the on-disk GPT format (build and parse headers, entries, protective MBR),
    the loader's partition lookup and load plan, and the host tool's table planning.
  - `nvme`: admin/IO queue bookkeeping, command building and completion handling.
  - `nor`: QSPI NOR read windows, page-program and sector-erase plans, LUT encoding,
    FIFO packing, status polling, controller init.
  - `ddr`, `cpu`, `i2c`, `soc`, `usb`: register plans for DRAM init and frequency
    changes, caches/performance/multicore bring-up, the PMIC over I2C, clocks and pins,
    and the BootROM USB stack.
  - `protocol`, `wire`, `client`: the flashing RPC's requests and checks, its USB
    framing, and the host tool's chunking, stage detection and argument parsing.
  - `log`: log record encoding.
- `tests/` — executable tests of the library on concrete values.
- `app/` — the host flashing CLI (`clap`, `tokio`, `nusb`, `postcard-rpc`), which does the
  I/O and calls the library for every decision.
