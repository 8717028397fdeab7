# fasti-api (verified core)

The request parsing, response shaping and state rules of the Fasti local
HTTP API, written in Verus and proved against their contracts.

- `src/` — the verified library: header and cookie authentication, the
  TrailBase sign-in callback and continuation rules, webhook normalization
  (Tautulli, Jellyfin, Nuvio, Emby, Plex) including the multipart payload
  extraction, observation bounds and operation identity material, canonical identifiers and the policy
  semantic digest, metadata request bounds, the provider credential state
  machine (each capability pending, the vault write, then every capability
  restored or completed) and inventory report, the conformance fixture's transport state,
  and the text utilities they share.
- `tests/` — executable tests of the library.
- `app/` — the unverified edge: axum header conversion, JSON extraction into
  the library's plain models, serde forms of wire types, the health and
  integration status routes with the static web fallback, and the conformance server's command line.
