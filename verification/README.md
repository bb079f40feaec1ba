# freeq

The decision and formatting logic of the freeq IRC ecosystem — an IRC
server with AT Protocol identities and server-to-server federation, its
voice/video agent, and its agent bots — written in Verus, with each
function's behaviour stated in `requires`/`ensures` and proved.

## Layout

- `src/` — the verified library.
  - Text and data: `text` (character model, whitespace, words, lines,
    decimal text, UTF-8 byte cuts), `json`, `tags`, `canonical`
    (canonical JSON, SHA-256, HMAC).
  - Server: `join` (a JOIN as one step), `mode_step` (a MODE command as
    one step), `privmsg` (a channel message as one step), `s2s` (a
    peer server's channel event as one step), `cap`,
    `registration`, `commands` (KICK/INVITE/TOPIC),
    `modes` (MODE planning, flags, bans, send/join rules, history),
    `delivery` (PRIVMSG/NOTICE/TAGMSG routing), `queries`
    (WHOIS/WHO/NAMES/LIST/LUSERS/AWAY), `history` (CHATHISTORY),
    `multiline`, `lines`, `channel`, `federation` (peer events and
    authority merging), `crdt` (the replicated cluster document over
    Automerge), `msgid`.
  - Policy and credentials: `policy`, `requirement`, `credentials`,
    `issuer`, `records`, `firehose`.
  - Voice agent: `call`, `ambient`, `speech`, `scene`, `av`, `seam`,
    `sfu`, `sdk`.
  - Bots: `bots`, `tools`.
  - `clock`: the system clock.
- `tests/` — tests of the library, run against the real outside crates.
- `app/` — glue that Verus does not see: serde forms of the library's
  types, JSON conversion, file access for agent workspaces, and the
  process-wide message-id generator, and the floating-point drawing of
  the agent's video tile.

Calls into outside crates (automerge, base64, bs58, chrono,
ed25519-dalek, hex, hmac, rand, serde_json, sha2, url) go through small
trusted wrappers whose contracts name or describe what the crate
returns; everything around them is verified.
