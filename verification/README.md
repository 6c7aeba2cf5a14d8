# websocket_nvim

WebSocket client and server support for Neovim plugins, written in Verus.

- `src/` is the verified library: message replay buffers, id-keyed
  registries of clients and servers, the settings and opening handshake of a
  client, the state machines that drive a client connection, an accepted
  server connection and a server's accept loop, and the rendering of events
  and errors into Lua callback arguments. Every public function carries a
  contract; the `law_*` proof functions state the properties that hold across
  calls (a connection's event order, a connection admitted once being handed
  exactly the kept messages, earlier ones through its queue and later ones
  through the fan-out, the kept messages holding every
  broadcast, registry lookups by id text).
- `app/` is the Neovim plugin around it: the Lua entry points, the async
  runtime and logging, and the tasks that move bytes on sockets and channels
  and perform what the state machines ask for.
- `tests/` exercises the library on concrete values.
