# gopher_codex

The logic of Gopher's built-in ChatGPT Codex provider, written in Verus. What each function does
is stated in its contract and proved; what the library promises as a whole is stated in the
public proof functions whose names start with `law_`.

- `src/responses.rs`, `src/stream.rs`: chat-completion requests turned into Responses requests, and
  the Responses stream turned back into chat-completion chunks.
- `src/subscription.rs`, `src/catalog.rs`, `src/pinned.rs`: where a request goes and what it carries,
  the models that are offered, and the addresses that a credential may be sent to.
- `src/secret.rs`, `src/refresh.rs`: the stored sign-in and its renewal.
- `src/login.rs`, `src/callback.rs`: signing in with the browser or with a device code.
- `src/redact.rs`, `src/system.rs`: text that is shown, and addresses that are opened.
- `src/text.rs`, `src/json.rs`, `src/members.rs`, `src/digest.rs`, `src/http.rs`, `src/providers.rs`: what the others are
  built on.

Network, files, sockets and the desktop are left to `app/`: the library hands out requests and takes
what came back. Functions of other crates are called through small items whose doc comments say
what is taken from them without proof.
