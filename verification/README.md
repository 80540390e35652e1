# Paper Plane

A Telegram client for the GNOME desktop, with its logic as a verified library.

- `src/` is the library. `model/` holds chats, messages, media albums and the
  loaded window of a chat history. `ui/` holds what the widgets decide: which
  media is downloaded, who plays on the shared stream, which pages the media
  viewer keeps, how tiles and reactions are arranged. Every function states what
  it does, and the functions named `law_...` state what holds of several of them.
- `app/` shows the widgets and talks to TDLib. It hands events to the library
  and performs the actions that come back.
- `tests/` runs the library on examples.
