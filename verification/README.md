# dasktop

The verified core of Dasktop, a Windows desktop organiser that groups desktop files,
folders, shortcuts and system icons into movable boxes.

`src/` is a Verus library. Each public function states its behaviour in `requires` /
`ensures` and is proved against it:

- `text`, `wide`, `hdrop`: strings, UTF-16 buffers for the Windows API (encoding,
  lossy decoding, double-NUL path lists) and the `CF_HDROP` file-list format.
- `app_user_model_id`: Store-app ids found in `.lnk` shortcut bytes.
- `bitmap`, `background`, `crop`, `icon_png`: icon pixels (alpha from masks, white
  backing plates, transparent padding, square canvases) and PNG data URLs.
- `shell_identity`, `shell_virtual_item`: Shell parsing names and the supported
  desktop system icons, their desktop items and their cache.
- `native_drop`, `clipboard`: what a drag or a paste carries, and the drop target that
  answers OLE drag callbacks.
- `shortcut_icon`: the step-by-step search for a shortcut's image (`IconFile`
  entries, AppsFolder entries, icon location, target, item ID list).
- `shell_file`, `shell_image`, `shell_context`, `desktop_icon`, `desktop_path`,
  `box_window`, `single_instance`: what to ask of the Shell, the registry and the
  window manager, and what their answers mean.

`app/` is the Windows host: it makes the system calls (GDI, COM, OLE, the registry)
and hands their results to the library. `tests/` exercises the library.
