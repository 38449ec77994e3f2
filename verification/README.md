# wasi-usb

The core of a host that gives WebAssembly components access to USB devices, and of the benchmarks
that run on it. `src/` is a library whose behaviour is stated in contracts and proved with Verus;
`app/` is the program around it.

- `types`, `policy`, `backend`, `hotplug`, `resources`, `transfers`, `host`: what a guest may see,
  and what each of its calls does to the resource table and asks of libusb.
- `bulk_only`, `exchange`, `mass_storage`, `opening`: Bulk-Only Transport and SCSI block commands.
- `args`, `calendar`, `checksum`, `csv`, `text`, `w_bulk`, `w_ctrl`, `w_iso`: the benchmarks and their log.
- `instrument`: call traces.

`app/` holds the calls into libusb, rusb and wasmtime, the command line and the files. It runs the
host, or, under the names `w_bulk`, `w_ctrl` and `w_iso`, the benchmarks.
