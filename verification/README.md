# Pinokio

A minimal Chromium gateway: remote Puppeteer and Playwright clients connect to
isolated Chromium instances over WebSocket, with token authentication, a
concurrency limit, a FIFO queue and robust process cleanup.

`src/` is the verified library (Verus). It decides; it performs no I/O.

| Module | What it states |
| --- | --- |
| `config` | what each environment variable says, and which value is refused first |
| `errors` | errors before the upgrade, with their HTTP status and text |
| `auth` | when a request carries the expected token |
| `queue` | session slots and the FIFO queue in front of them |
| `server` | readiness, status and admission |
| `session` | a session from its request to its end |
| `proxy` | the transparent relay between a client and Chromium |
| `chromium` | identity, startup and teardown of the browser |
| `launch`, `language` | launch options and the Chromium command line |
| `browser_archive` | download, check, unpacking and installation of an archive |
| `startup` | preparation of the browser, and the exit status |
| `hash`, `number`, `text` | SHA-256, notation of numbers, text operations |

The public proof functions whose names begin with `law_` state what holds of
the gateway as a whole.

`app/` is the program around the library: it reads the environment, serves
HTTP, runs the browser processes and carries out what the library decides.
`tests/` runs the library on concrete values.
