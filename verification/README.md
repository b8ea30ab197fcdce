# me-api-proxy

A gateway between clients of the OpenAI interface and the suppliers behind it. A client comes with
an access key (`me-...`), which leads to a pool of suppliers. The suppliers and their keys are tried
in turn; a key that fails too often is banned for some minutes, then for the rest of the day. Where
a supplier speaks another protocol than the client, requests and answers are converted between Chat
Completions and Responses, streamed answers among them.

## Layout

- `src/` is the library: the decisions of the gateway, verified with Verus. It takes plain values
  and gives plain values back.
  - `config`, `upstream`, `headers`, `access`: who may come in, and where a request goes
  - `json`, `tools`, `requests`, `responses`, `sse`: the conversions
  - `clock`, `runtime`, `usage`: what is remembered of keys
  - `proxy`: a request on its way through a pool
  - `payload`, `store`, `save`, `admin`, `views`, `models`, `probe`: what the administrator does and
    is shown
  - `text`, `answer`: what the others share
- `app/` is the program around it: the listener, the database and the calls to suppliers.
- `tests/` runs the library.

## Running

The program reads `ADMIN_USERNAME` and `ADMIN_PASSWORD`, keeps its database under
`~/.me-api-proxy`, serves the administrator's pages from the directory `pages` (`admin.html` and
`access_keys.html`), and listens on port 8080.
