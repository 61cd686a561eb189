# netsniffer

The logic of a small packet-capture desktop application, verified with Verus.

- `src/` — the verified library: reading captured Ethernet frames into packet records
  (`parser`), the size and count texts (`packet`, `count`, `number`), address text
  (`address`), the packet filter (`filter`), interface listing (`interface`), the
  auto-saver's decisions and text records (`saver`), the per-frame capture step
  (`sniffer`) and the user-interface events (`emit`).
- `app/` — the Tauri shell: commands, shared state, the capture task (pcap), and the
  files written to disk (JSON through serde).
- `tests/` — tests of the library, among them comparisons with pnet's own packet views
  and with the floating-point formatting the size and count texts reproduce.
