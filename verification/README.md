# connected

The desktop side of Connected, an application that links a computer with
nearby phones and computers: discovery, pairing, file transfer, clipboard
sync, media control, phone data (contacts, messages, calls) and a remote
file browser.

`src/` is the verified library. It holds the application's state and every
decision taken on it: what a discovered or lost device does to the stores,
how pairing and transfer requests wait and expire, how clipboard text is
passed on without echoing, how phone data is merged and kept newest first,
what the window lists, how media updates are relayed, which paths a peer
may read, how autostart entries, wake-up markers and proximity payloads are
written and read, and what the user is told at each step. Each public
function carries a contract; properties that span calls are stated as proof
functions.

`app/` is a small command-line front end around the library: settings on
disk, the clipboard, the filesystem provider, autostart files, wake-up
markers, media relaying and the tray icon.

`tests/` exercises the library on concrete values.
