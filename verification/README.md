# diaspor_vfs

The verified core of the diaspor virtual filesystem desktop application: a file manager that
mounts local folders and object stores (S3, S3-compatible stores, Azure Blob, Oracle Object
Storage) side by side, moves files between them and between storage tiers, and runs local AI
tools (Ollama, whisper.cpp, ffmpeg) for tagging and transcription.

## Layout

- `src/` is the library, written in Verus. Every executable function carries a contract
  stated over mathematical models (`Seq`, `Map`, spec functions and views), and Verus proves
  the code against it. The few calls into outside crates (OpenDAL, base64, urlencoding,
  chrono, serde_json, and a handful of std functions) go through small trusted wrappers whose doc
  comments say what is assumed of them.
  - `domain`, `paths`, `text`, `order`, `listing`, `keyed`, `recency`: files, paths, text
    handling, orderings and keyed records.
  - `sources`, `local`, `s3`, `s3_transfer`, `blobstore`, `factories`, `tiering`, `store`,
    `bytes`: the storage sources, their adapters' decisions (listing, copying, renaming,
    deleting), storage classes, and settings storage.
  - `clipboard`: copy, cut and paste across sources, self-copy protection and URI lists.
  - `settings`, `logs`, `audit`, `migrate`: application settings, log files and rotation,
    the audit trail, and the move of former state.
  - `commands`, `installers`, `models`, `ollama`, `media`, `transcription`, `gpu`,
    `system`, `tokens`: the AI tooling, its installation, model registries, thumbnails,
    transcription jobs and subtitles, GPU and system reporting, and AI token accounting.
- `tests/` holds the tests, run against the compiled library.
- `app/` is the command-line host: file, process and network I/O, async plumbing, the
  serialisable copies of library records, and the little that works on floating point.
  Where a task alternates I/O and decisions (installing the AI tools, pulling a model,
  copying and renaming inside a bucket, reading a streamed transcript), the library holds a
  step function from state and event to next state and action, and `app/` performs each
  action and hands back what came of it. For a paste, the library decides each
  destination name, the failure reports and what a cut deletes (`finish_paste`); `app/` does
  the copying.
