# AFC Finder

Browses the files of an iOS device over AFC: the media jail, the documents or the container of an
app, and the crash reports.

`src/` is a library verified with Verus. It holds what the program decides; it does no I/O.

| module        | what it holds                                                              |
|---------------|----------------------------------------------------------------------------|
| `commands`    | the messages between the screens and the background tasks                  |
| `discovery`   | devices and installed apps by name, and what `usbmuxd` events lead to      |
| `app`         | the state of the program and what each report does to it                   |
| `state`       | the state of the file browser and what each report does to it              |
| `connection`  | the connection screen: the search for an app, and what is opened           |
| `explorer`    | the file browser: the way up and down, transfers, rows                     |
| `listing`     | the stable sort of a listing                                               |
| `worker`      | the task that works on files, as a state machine                           |
| `remote_path` | paths on the device, by the rules of a Unix or a Windows host               |
| `size`        | file sizes as text                                                         |
| `name_map`    | a map with string keys                                                     |
| `text`        | string helpers                                                             |
| `outside`     | what is taken from other crates, with the contracts that are believed      |
| `laws`        | what holds of the program as a whole                                       |

`app/` is the program: the window, the background tasks and all I/O. `tests/` runs the library with
the real outside crates.
