# audio_tray

The rules of a Windows audio tray, as a verified library: what the flyout shows and where, what a
click or a turn of the wheel does, which icon a device has, when the taskbar's strip is put up and the
shell restarted for it, who records, and which media session is the player's.

- `src/` is the library. Every function states what it returns, and Verus proves it. The properties
  that hold across functions are the public proof functions whose names start with `law_`.
- `app/` is the program around it: windows, COM, the registry, files, and everything that computes with
  floating point.
- `tests/` runs the library on values.

| Module | What it decides |
|--------|-----------------|
| `audio` | devices, form factors, batteries, who has the microphone open |
| `config`, `icons` | the icon of a device, and its pixels |
| `flyout` | the panel: model, layout, gestures, paint lists, placement |
| `taskbar`, `tray` | the strip, its wire, the device cycle, the tray's message loop |
| `osd`, `layered`, `win` | the readout, pixel formats, wide text |
| `music` | which session is followed, what is published, the bar, the buttons, raising the player |
| `update` | staged versions and the file an update comes in |
| `cli`, `listing` | the command line and what `--list` prints |
