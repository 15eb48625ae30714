# my_quick_feed

Collects RSS, Atom and RSSHub feeds per topic, has an article generator
(an agent CLI or a chat-completions API) write news articles from the new
items, and posts them to a Discord forum thread per topic.

- `src/` is the verified library (Verus): feed parsing, the fetch and run
  state machines, prompts and answer handling, Discord request contents and
  answer reading, the scheduler's decisions, the captured log and the
  session history. Laws of the library are public proof functions next to
  the code they are about.
- `app/` is the program around it: configuration file, SQLite, HTTP,
  child processes, timers and logging.
- `tests/` runs the library on concrete inputs.
