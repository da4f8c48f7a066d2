# telegram_onedrive

The logic of a Telegram bot that uploads files to OneDrive — files sent to it, files of
linked messages, and files behind URLs — written in Verus and proved against its
contracts.

## Layout

- `src/` — the verified library.
  - `text`, `decimal`, `assoc`: character sequences, integer formatting and parsing,
    association lists (the model of the maps the bot keeps).
  - `patterns`: regular expressions, through the `regex` crate.
  - `command`, `docs`: cleaning a command of Telegram markup, splitting it into words,
    and the help texts.
  - `message_link`: reading and writing Telegram message links.
  - `filename`: the OneDrive name and size of a file from a URL or from Telegram media
    (through `url`, `mime_guess` and `percent-encoding`).
  - `listener`: the events a message triggers and where a message is routed.
  - `handlers`: reading each command (`/dir`, `/drive`, `/links`, `/url`, `/logs`, ...)
    and the answers the bot gives; turning a sent or forwarded file into a task.
  - `progresser`: the progress of the transfers and the progress messages.
  - `tasker`: the table of tasks, what can be cancelled, how a task is taken in and
    finished, the decisions of a transfer, and the progress message kept per chat.
- `tests/` — tests of the library on concrete values.
- `app/` — the program around the library: the HTTP probe of a URL (what the program
  runs), the Telegram media it reads, and sizes in MB. It also holds the tasker and
  progress-reporter loops, taking in file messages and running scripts, written over a
  `Messenger` interface. The Telegram and OneDrive clients that implement it are not
  part of this crate, so these loops are not started.
