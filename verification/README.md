# metasearch

Configuration, result re-ranking and the Google engine of a metasearch server,
as a library whose behaviour is stated in contracts and proved by Verus.

- `src/` is the verified library.
  - `config` holds the configuration, its defaults, and overlays from a file.
  - `reputation` says which domains are blocked and what the others weigh.
  - `source_identity`, `vocabulary` and `relevance` count what a result is
    judged by: its source, its wording, and how much of the query it contains.
  - `rerank` gathers these signals, drops blocked results and ranks the rest.
  - `google` builds requests to Google and reads its answers.
  - `data`, `web` and `unicode` are where other crates are called: TOML and
    JSON, URLs, patterns and HTML, letter case and decomposition.
  - `text`, `number`, `order` and `engine` are what the others build on.
- `app/` is the server's side: files, the network, and the floating-point
  formulas that turn counts into scores.
- `tests/` runs the library on concrete inputs.

Numbers are held by their bit patterns (`number::Binary64`): the library
stores, selects and compares them, and arithmetic on them is left to its caller,
which hands `rerank` a function from signals to a score.
