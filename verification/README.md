# klaay

A command-line client for the Klaay API, written as a verified library with a
thin program around it.

`src/` is the library. Everything that the client decides is in it, as plain
functions with contracts that Verus proves: which requests go out and with which
token, what is made of the answers, how a sign-in or an upload goes from one step
to the next, how the description of the API is rendered, and where tokens are
kept. Flows that alternate with the outside world (a sign-in, an upload, a file
that is written) are functions from a state and an event to the next state and an
action.

| Module | What it holds |
|---|---|
| `text`, `order`, `json`, `format` | texts, ordered maps, JSON values |
| `address`, `config` | URLs and where they may point, settings |
| `client`, `response` | the requests of the API and its answers |
| `commands`, `status` | what the commands check, send and show |
| `schema`, `markdown`, `skills`, `cache` | the description of the API |
| `upload`, `direct_upload` | files that are attached |
| `auth`, `token_store`, `secure_write`, `leftovers` | tokens and where they are kept |
| `web_login`, `sign_in`, `sso`, `provider` | signing in |
| `outside` | the calls into other crates, with what is believed of them |

`app/` is the program: the command line, the network, the file system, the
keychain and the clock. It hands plain values to the library and does what the
library says.

`tests/` runs the library on concrete values.
