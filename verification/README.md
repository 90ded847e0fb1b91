# rss_digest

The decision core of a daily news digest, verified with Verus, and the program around it.

A run loads each user's unread articles from FreshRSS (Fever API), stores them in Qdrant,
asks a language model for a summary of each in the light of related and recent articles,
translates the summaries for users with a target language, mails the digest, and marks the
articles read.

- `src/` is the library. It performs no I/O: each exchange with a server is a value that
  says what to send, and a function from the reply to what follows. The contracts say what
  these functions return; functions named `law_...` prove what holds of them together.
- `tests/` runs the library on concrete values, with the outside crates linked.
- `app/` is the program: command line, environment, network, clock.

| Module | Subject |
|---|---|
| `text`, `json`, `http`, `ordering` | what the exchanges are made of |
| `config` | the configuration, from environment variables |
| `freshrss_fever`, `fever_exchange` | the Fever API: loading articles, marking them read |
| `freshrss`, `freshrss_native` | two further APIs of FreshRSS |
| `llm`, `ollama`, `translate` | language model and translation service |
| `qdrant`, `summary_update` | the vector store |
| `email` | the mails |
| `user_digest`, `digest` | one user's digest, and the run over all users |
| `schedule` | when the next run is |

What is believed without proof are the contracts of a few calls: MD5 (`md5`), Markdown to
HTML (`pulldown_cmark`), reading a mailbox (`lettre`), dates and time zones (`chrono`,
`chrono_tz`), and `String::push`. Each stands beside the call, with what it claims.
