# bah

A front end for pacman, libalpm, makepkg and the AUR, whose rules are verified with Verus.

- `src/` is the library. It holds what the program prints, what it decides and in which order it
  acts. Every function has a contract that Verus proves, but for the calls into other crates and
  the standard library that are named below.
  - `exec`, `backend`: the command lines of pacman and makepkg, the choice of the backend, and the
    steps of an operation in this process.
  - `tx_helper`: plans for the privileged helper, their validation and their steps, messages between
    the helper and its parent, the checks of the boot partition, and the recovery from a stale lock.
  - `ui`: tables, previews, warnings and the progress of a transaction.
  - `search`, `sync`, `remove`, `subcommands`: the operations of the command line.
  - `text`, `number`, `order`, `style`, `fmt`: what the others are made of.
- `tests/` runs the library on concrete values.
- `app/` surrounds it: processes, signals, files, the terminal, the network and libalpm.

The contracts that are taken on trust are those of calls into regex, chrono, unicode-width, flate2
and ansiterm and into a few functions of the standard library. Each stands with its call, and its
doc comment says what is claimed of it.
