# wardian_state

The state, rules and protocols of Wardian's desktop backend, written in Verus
and proved against their contracts.

- `src/` is the verified library: browser sessions (URL rules, refs and the
  snapshot ledger, the page's event state, drive leases, the session
  registry, the DevTools call ledger, frame routing and the reading of
  protocol events, the injected page scripts), prompt delivery, the Zellij terminal engine (launch specs, pane registry, engine
  phases, command arguments), the interaction, mailbox, inbox and queue
  stores, file-resource grants and recovery, telemetry backup rotation,
  onboarding settings, session-close runs, the remote roster and the
  topology audit trail. Laws that relate several operations are public proof
  functions named `law_*`.
- `tests/` runs the library on concrete values.
- `app/` is the I/O around it: the settings and audit files, the backup
  directory, the browser process, its DevTools socket and event feed, the
  Zellij process (starting it, creating panes and writing their launch
  manifests), prompt delivery to a terminal, and the session-close run
  directory.
