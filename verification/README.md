# logger_client

Desktop client for a data logger on a serial (USB) link. The library in
`src/` is written in Verus: its functions carry contracts that the verifier
proves, except the few trusted wrappers of outside code, whose contracts are
believed as written: `text::push_char` (`String::push`),
`motec::local_now` (the local clock, with no contract at all),
`motec::format_date_time` (chrono's formatting), and the `serde_json`
calls of `device` (the parser and `Value`'s member access and `as_bool`,
`as_str`, `as_u64`), whose results are given names that the contracts
speak of rather than spelled out.

- `device`: the command set, decoding of the logger's reply lines by the
  command they answer, hex transport of binary data (with its round trip),
  chunked log downloads with bounded retries, the firmware-update requests,
  routing of control commands, the logger's port.
- `link`: the decisions of the poll loop that keeps the published device
  state current.
- `console`: cleaning console lines, the bounded line buffer, the console
  port.
- `config`: the configuration form: field reading, checking with the
  message of the first bad field, and filling from a stored configuration
  (a loaded configuration is accepted back as it stands).
- `log_parse`, `motec`, `ld`: CSV export of a decoded log (which splits
  back into its header and rows), the MoTeC channel table, the timestamps
  the sample rate is read from, and the byte layout of the `.ld` file.
- `ui`: labels, messages, toasts, list order and the firmware-update job
  (announce, upload the chunks in order, watch the status).
- `text`, `decimal`, `bytes`: the string, float-syntax and byte helpers
  they rest on.

`app/` is the program around it: serial I/O, JSON on the wire, the poll and
console threads, file flows, and the floating-point work: the calibration of
samples and the arithmetic of the sample rate.
