# chery_apk_install

Installs APK files on a Tenet T8 / Chery head unit over adb and grants them every permission,
because the head unit has no settings in which the owner of the car could do that.

## Layout

- `src/` is the verified library: what is asked of the device and of the file system, in which
  order, what is made of the replies, and what is reported.
- `app/` is the desktop application around it (Tauri): it answers the library's questions, by
  running adb, reading files and waiting, and hands results to the web view.
- `tests/` runs the library against made-up devices.

## How work is written

Work that needs the outside world is ordinary code against a `Session`, which holds the replies
that came in so far. Where the code asks something that has no reply yet, it halts with the
question. The application answers it, rewinds the session and runs the code again.

Contracts speak of a `Talk`, the mathematical value of a session: the replies, the questions asked,
the log, and why the work stopped, if it did. `replay.rs` proves that running work again with more
replies repeats what was asked and then goes on, and that one piece of work touches one device only.
`laws.rs` states what whole pieces of work promise: that an installed package has been granted
everything, that the old version goes before the new one comes, that an interrupted unpacking leaves
the adb in use alone, and more.

## Modules

| module | contents |
| --- | --- |
| `text`, `decode`, `error`, `worklog` | characters, lines and words; decoding; errors; the log |
| `axml`, `apk` | the package name in the binary manifest of an APK |
| `session` | questions, replies and running adb |
| `devices` | the list of devices and the choice of the head unit |
| `packages`, `components` | what the device says of packages, permissions and components |
| `grants`, `vehicle` | permissions, app operations, listeners, vehicle management, device owner |
| `tools` | unpacking the bundled adb |
| `commands` | the five commands of the application |
| `continuation`, `replay`, `laws` | what holds of whole conversations |
