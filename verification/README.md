# openforensic

A verified core for a digital-forensics workstation: disk and folder
imaging with multi-algorithm hashing, sector-level recovery of unreadable
blocks, keyword scanning, split and sparse image planning, partition and
file-system detection, integrity reports (text, HTML, CSV, PDF layout),
live triage, shadow-copy tooling output, locked-file copies, memory
analysis helpers and a plugin registry.

## Layout

- `src/` — the library, verified with Verus. Each module states what its
  functions return in `requires`/`ensures` contracts over mathematical
  models (`Seq`, `Map`, `int`), and proves laws that span functions
  (`lemma_*` proof functions), for example:
  - `probe::detect_partitions`: whatever the device, the partitions
    finally reported are `detected_partitions` of what the device reads;
  - `output::lemma_write_all_faithful`: a planned write puts exactly the
    buffer into the image, holes only where it is zero, and no split part
    grows past the split size;
  - `report::lemma_report_status` and `report::lemma_same_bytes_verified`:
    when a report declares an acquisition verified;
  - `output::lemma_split_counts_over_writes`: over any number of writes
    to a split image, the current part holds `(n - 1) % m + 1` of the
    `n` bytes and every earlier part is full;
  - `acquisition::lemma_resumed_session_hashes_like_uninterrupted`: a
    resumed acquisition re-reads the source before its offset, so its
    digests are those of an uninterrupted one;
  - `output::lemma_resumed_writer_continues`: a writer reopened at the
    position the bytes before the checkpoint reach lays out every later
    write as an uninterrupted writer does;
  - `acquisition::lemma_pre_hash_matches_acquisition` and
    `acquisition::lemma_logical_hash_matches_copy`: hashing passes over
    the same bytes report the same digests;
  - `html::lemma_html_verdict_matches_text`: dashboard and plain report
    agree on the verification outcome, whenever no pre-acquisition digest
    is the string "N/A" (which the dashboard shows as a missing digest);
  - `plugins::lemma_register_keeps_names_unique`: at most one plugin per
    name.
  Calls into hashing, date, regex and text routines of other crates and
  of std go through small trusted wrappers whose contracts name their
  results.
- `tests/` — tests of the library on concrete values.
- `app/` — a command-line program around the library: device access,
  image files, compression, processes, SQLite, HTTP and PDF output, and
  cancellation by Ctrl-C.
