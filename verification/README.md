# gqy

The logic of a chat assistant's plugins and of its terminal output, written in Verus. What
a function of the library promises is proved, except where it calls an outside crate or a
part of the standard library that Verus does not know: such calls stand in small functions
of their own, whose contracts are believed, and whose comments say what is believed.

- `src/` is the library.
  - `text`, `numbers`, `order`, `times`, `arguments`, `json`, `platform`: what the rest is built on.
  - `group_management`: mutes, removals and titles in a group, and the records of them.
  - `message_history`: what is kept of messages, how it is searched, deleted and shown.
  - `message_recall`, `withdrawal`, `recall_memory`: withdrawing messages.
  - `real_context`: when the assistant answers unasked, how it stands to a member, its mood.
  - `meme_collector`, `reply_processor`, `renderer`: images, long answers, the rendering worker.
  - `render`: formulas, tables, foldable blocks and the line shown while waiting.
- `tests/` runs the library.
- `app/` is ordinary Rust around the library: platforms, files, databases, processes, and
  whatever is computed in floating point.

A law that relates several functions stands next to them as a public proof function whose
name starts with `law_`.
