# OxiClaw

An agent runtime: a model is asked, calls tools, remembers what was said, and works on scheduled jobs.

`src/` is the library, written in Verus. Each function states what it returns in its contract, and what holds of
several functions together is stated and proved beside them:

- `text`, `layout`, `search`, `numerals`, `order`, `paths`, `ranking`: texts, words, numbers, names, paths and ranked
  lists;
- `json`: JSON values as plain data, and the bridge to `serde_json`;
- `session`, `tools`, `http_request`, `notes`, `cron_tool`, `engine`, `llm`: the conversation, the tools, and a turn;
- `entries`, `indexer`, `question`, `memory`, `probe`: the searchable memory;
- `guard`, `curator`: what may be written down, and the curator that proposes it;
- `config`, `persona`, `storage`: settings, system prompt and transcripts;
- `cron_store`, `runtime`, `telegram`, `http`: scheduled jobs, commands, and the two ways to reach the program.

`app/` is the program around it: files, the network, the databases, the index, the clock and the workers.
`tests/` runs the library on concrete values.
