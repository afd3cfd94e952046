# imglaze

Chat-driven image overlays for Twitch streams. A moderator types `::img <link>` in the
channel's chat; the overlay (a browser source in OBS) shows the image.

- `src/` is the library, verified with Verus: splitting chat messages, accepting image links
  (by URL and extension) and routing them through the image proxy, per-channel command
  cooldowns, the registry of open overlay sockets, the state machine of one socket (with the
  heartbeat timeout), saving each overlay's last image and showing it again when a socket
  reconnects, closing the sockets opened with a secret once it is reset, reading overlay ids,
  permission and ownership checks, the server's metrics, and the classification of database
  errors.
- `tests/` runs the library on concrete values.
- `app/` is the server around it: actix actors and routes, the Twitch chat client, the
  Postgres queries, login tokens, and the IVR moderator lookup.

Settings come from the environment: `DATABASE_URL`, `SERVER_URL`, `TWITCH_CLIENT_ID`,
`TWITCH_CLIENT_SECRET`, `TWITCH_CLIENT_USER_LOGIN`, `IMAGE_PROXY`, `JWT_SECRET`.
