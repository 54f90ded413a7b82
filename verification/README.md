# fractal_gtk

The decisions behind part of the Fractal Matrix client's GTK window, written
in Verus and proved against their contracts:

- `app_state`: the views of the window and the names they are written under
  in action parameters.
- `back_history`: the history of views that the back action walks.
- `media_viewer`: when the media viewer reveals and hides its header bar and
  navigation buttons, and how full screen is entered and left.
- `message_menu`: the menu of actions on a message: which buttons it shows,
  the quote a reply starts with, the message source shown, and the text
  selected in a label.
- `cache`: what the session cache stores of each room and how the rooms read
  back are keyed by id.
- `text`: line splitting, quoting and emote markup.

`app/` holds the GTK code that reads widgets, the clipboard and the cache on
disk, hands plain values to the library and performs what it decides.

The rooms read back from the cache are keyed by their `String` ids. vstd's
contracts for `HashMap` hold only for key types it knows to hash and compare
faithfully (the integer types and `bool`), not for `String`, so `RoomList`
keeps the rooms in a `Vec` whose type invariant is that no two share an id,
and is seen as the map `room_map` of those rooms by id.
