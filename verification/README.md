# Baluchon

Manages the portable applications on a USB drive, on Linux and Windows: finds
the drive, lists what its `apps.json` names, launches applications, installs and
removes their shortcuts, and runs their setup scripts.

- `src/` is the library, verified with Verus: what is decided and what is said.
  It touches neither files nor programs. It names the next thing to do and is
  told what came of it. The laws of the library are the functions whose names
  begin with `law_`.
- `tests/` runs the library on given values.
- `app/` is the program around it: the window, the files, the processes, and the
  arithmetic in floating point.

## `apps.json`

At the root of the drive; all fields but `name` are optional.

```json
[
  {
    "name": "MonApp",
    "exec_linux": "monapp/monapp",
    "exec_windows": "monapp/monapp.exe",
    "icon": "monapp/assets/icon.png",
    "description": "Description courte",
    "download_url": "https://example.org/monapp",
    "setup_script": "monapp/setup.sh"
  }
]
```
