# voce

The logic of the Voce desktop assistant (dictation, translation and
Google Drive sync of bookmarks and translations), written in Verus with
its contracts proved.

- `src/` is the verified library:
  - `text` — character-level string operations with `str`-like contracts;
  - `sync` — the plain-text layouts of bookmark and translation files in
    Drive, timestamps of file names, percent-encoding;
  - `cloud` — reading records back from Drive and the deduplicating merge
    of cloud and local records, newest first;
  - `drive` — Drive addresses, uploads and what their replies give;
  - `auth` — credentials, token refresh, the OAuth redirect and profiles;
  - `ai` — Groq API keys, transcription replies, translation prompts and
    the walk through the candidate models;
  - `translator`, `phrases` — the offline phrase translator;
  - `whisper` — the command-line speech recognizer's options and script;
  - `clipboard`, `hotkeys`, `windows`, `audio` — the desktop decisions:
    selection capture, shortcuts and tray, overlay placement, silence
    trimming.
- `tests/` runs the library on concrete values.
- `app/` is the Tauri application around it: commands, plugins, HTTP,
  the store, the database, the microphone and the clipboard.
