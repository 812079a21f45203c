# kidproxy

`kidproxy` is a single-backend HTTPS reverse proxy. It terminates TLS for one frontend domain,
passes requests on to one `https://` backend, can rewrite responses by ordered rules, and logs each
completed exchange.

- `src/` is the library: everything the proxy decides and computes, with contracts that Verus
  proves. It does no I/O.
- `tests/` runs the library together with the crates it calls.
- `app/` is the program: listener, backend client, TLS, files, database and admin pages. It hands
  the library plain values and carries out what the library decides.

## The library

| Module | What it holds |
| --- | --- |
| `config` | the configuration file, its validation, and URLs for the backend |
| `proxy` | what becomes of a request and of the backend's answer |
| `transform` | response rules: matching, header and body rewriting |
| `capture`, `body`, `fields` | what is recorded of an exchange |
| `tls`, `probe` | certificates and keys, TLS sessions, what is known of the backend |
| `event`, `schema`, `migration`, `writer` | events, their columns, batches and files |
| `runtime_manager` | saving and reloading the configuration of a running proxy |
| `form`, `admin` | the admin pages: forms, the editor, the event list |
| `text`, `number`, `clock`, `json`, `digest`, `headers` | what the others are built on |

The public proof functions state the laws that hold across functions: that no event that was taken
in is lost, that an exchange is logged once, that header rules never stop a response from
streaming, and so on. What is not proved, the contracts of the calls into other crates, stands in
functions marked `external_body`, each with a comment that says what is claimed of the call.
