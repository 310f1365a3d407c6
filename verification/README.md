# Model Assistant

Model Assistant is a GNOME desktop application that launches local AI models
from a directory named by `MODELS_ROOT`:

```text
MODELS_ROOT/
├── Files/
│   ├── assistant.toml
│   └── <model files>
└── Runner/
    ├── dev/
    ├── proc/
    ├── tmp/
    ├── usr/
    └── ...
```

A model is run by `chroot <MODELS_ROOT>/Runner <executable> ...`, in namespaces
of a helper process, the keeper. The model files are found there under `/mnt`.

## The verified library

`src/` holds what the application decides and computes, with its contracts:

- `text`, `text_order`, `encoding`, `names`, `unix_path`: texts, their order and their
  bytes, maps with ordered names, and paths as bytes
- `paths`, `config`, `startup`: what has to be there, and what is wrong where it is not
- `launch`, `ipc`, `window`: how a model is started, and what its controls show
- `manager`, `keeper`, `namespaces`, `mounts`: the keeper, its messages, its way into
  namespaces of its own, and the mounts of the runner
- `screen`, `console`, `surface`, `console_view`: the console, from terminal output to
  the cells that are drawn
- `screen_laws`, `console_laws`: what holds of every screen and of every console

## The application

`app/` does the rest: the windows (GTK 4, libadwaita), the files, the sockets and
the processes. One program serves as the application and, under the name
`runner-keeper`, as the keeper.
