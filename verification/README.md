# cim_web

A chat server for a local LLaMA model, with its logic verified by Verus.

- `src/` is the verified library:
  - `model/conversation.rs`: roles, messages, conversations, and the speaker
    labels used in LLaMA prompts;
  - `model/configuration.rs`: the model families and how a configured name
    selects one (lower-casing goes through `str::to_lowercase`);
  - `api.rs`: the prompt that opens an inference session, the prompt for a
    user message, the stop-sequence filter applied to the streamed reply,
    and what becomes of the client's websocket frames, with the laws that
    the filter and the prompts keep;
  - `text.rs`: character-level prefix and equality tests on strings.
- `app/` is the server around it: YAML storage, model loading, the actix
  websocket handler and `main`.
- `tests/` runs the library on concrete values.
