# hfss_file_manager

The core of a desktop manager for HFSS engineering projects (`.aedt` files
and their `.aedtresults` folders), written in Verus and verified.

`src/` is the verified library:

- `schedule` parses backup policies (`daily` `HH:mm`, `weekly` `Ddd HH:mm`),
  works out the next run time, decides which schedules are due and what a
  run records;
- `scan` decides which entries a repository scan walks and records, and how
  a project is named and where its results live;
- `backup` decides which files a backup copies and where, refuses a backup
  folder inside the repository, names snapshots after the local clock,
  lists and counts what was copied for the snapshot's index, builds the
  backup record, and selects the snapshots that retention removes;
- `digest` computes SHA-256 checksums in lowercase hexadecimal;
- `repository` names repositories and finds project folders;
- `text`, `paths`, `calendar`, `clock` and `types` hold the character-level
  rules, the path primitives, the calendar model, the clock and the records.

`app/` is the rest of the program: the SQLite store, walking and copying
files, the checksum file reads, the 30-second schedule worker, and the
command functions the user interface calls.
