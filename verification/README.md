# chatgpt_oauth

The ChatGPT sign-in of the `omg` terminal agent, as a verified library:

- `src/login_command.rs` — the `/login` slash command and the provider it picks.
- `src/oauth.rs` — the OAuth protocol: authorization URL with PKCE, the
  browser callback and its state check, the loopback listener's request and
  answer, the device-code polling decisions, the token endpoint requests.
- `src/credentials.rs` — building credentials from a token response (first
  sign-in or refresh) and deciding when they need a refresh.
- `src/jwt.rs` — reading claims from a JWT payload.
- `src/json.rs`, `src/encoding.rs`, `src/text.rs` — JSON values, base64,
  SHA-256, percent-encoding, trimming, decimal parsing.

`app/` holds what cannot be verified: the launcher binary, files, the
network, the browser and the clock-driven loops.
