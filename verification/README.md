# espx_ls

The verified core of the espx language server, written in Verus.

`src/` holds the logic with its contracts and proofs:

- `comment_str`, `lexer`: comment delimiters by language and the lexer that
  splits a document into code blocks, comment delimiters and comments.
- `doc_store`, `changes`: open documents and the characters typed into them.
- `lru`, `global_lru`: the recency cache of documents and when the agent's
  listener is due.
- `runes`, `burns`, `actions`: marks left in documents, their edits, the
  actions that trigger strings ask for, and the conversation file's text.
- `burn_cache`: the burn kept on each line of each document, found again by
  a position.
- `action_run`, `executor`, `code_actions`: the steps an action goes through
  and what each sends, the commands the editor sends back, and the code
  actions offered to it.
- `query`, `chunks`, `doc_chunks`, `blocks`, `memories`: statements for the
  document database, the chunks and blocks documents are cut into, and the
  ids of records.
- `config`, `action_config`, `agents`: configuration and its defaults.
- `errors`, `commands`, `ui`, `text`: error texts, command errors, window
  sections and string helpers.

`app/` is the process around it: reading `espx-ls.toml`, making the server's
directories, holding the document store, and showing errors. `tests/` runs
the library on concrete inputs.
