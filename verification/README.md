# telebot

A Telegram account that answers questions with an AI service and turns messages into quotes. What it decides
and computes is a Verus library under `src/`; `app/` is the program around it, which reads, sends and stores;
`tests/` holds what both rest on, on concrete values.

## The library

| Modules | What they hold |
| --- | --- |
| `text`, `scan`, `number`, `failure` | characters, words, trimming, numbers in decimal, error messages |
| `command`, `plugin`, `updates` | commands in messages, who answers them, each one once |
| `config`, `settings`, `store` | the configuration, settings changed at run time, what is kept |
| `markup`, `markdown`, `rich`, `split`, `outgoing` | Markdown as formatted text, in messages that Telegram takes |
| `json`, `base64_text`, `base_url` | documents, Base64, addresses |
| `ai_request`, `ai_reply`, `ai_run`, `provider_error` | asking an AI service: bodies, replies, the course of a request |
| `ai_runtime`, `ai_config`, `ai_context`, `prompt` | the settings in force, commands that change them, what is asked |
| `quote`, `quote_archive`, `quote_media`, `quote_payload`, `quote_render` | quotes, from the command to the picture |
| `session_import`, `session_login`, `checks` | sessions of GramJS, logging in, trying the program out |

Every function says in its contract what it returns, over mathematical models of the types. Proof functions
whose name begins with `law_` state what holds across functions. Calls into `serde_json`, `base64`,
`pulldown_cmark`, `reqwest`, `image`, `rand` and `grammers_session` stand behind functions marked
`external_body`; each names the function that it calls and what is taken for granted of it.

## The program

`app/` performs what the library decides: it runs requests and hands back what came of them
(`ai_http`, `quote`), keeps records in SQLite (`store`), speaks to Telegram (`telegram`, `serve`), and reads
files, the terminal and the configuration (`config_file`, `session_import`, `session_login`).
