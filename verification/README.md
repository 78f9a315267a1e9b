# writing_helper

The verified core of a local writing assistant that asks an Ollama model for
writing hints on a text and shows them in the browser.

- `src/` — the library, verified with Verus:
  - `text.rs`: substring search, Unicode whitespace, and splitting a text into lines;
  - `suggestion.rs`: requests, hints and responses, with their views;
  - `fallback.rs`: salvaging hints from a reply that is not in the expected JSON shape;
  - `analysis.rs`: the system prompts, the query sent to the model, and how its reply becomes a response;
  - `models.rs`: the catalogue of writing-focused models and their download state;
  - `session.rs`: what each browser message is answered, the health report, the front page;
  - `laws.rs`: properties of the library as a whole, proved.
- `tests/` — tests of the library on concrete values.
- `app/` — the server: command line, Ollama process, HTTP, WebSocket and JSON encoding.
