# mor-steg

The verified core of MorSteg, a menu-driven helper that encrypts a secret with
`age` and hides it in a cover file with `steghide`, and that wraps steghide
files in "cloud-safe" ZIP packages so that the carrier bytes survive uploads.

- `src/` is the library, checked by Verus: the ZIP format of the packages and its
  CRC-32 (`crc`, `zip`, `package`, `cloud`), Unix path handling and save
  locations (`unix_path`, `paths`), the argument lists handed to `age`,
  `age-keygen` and `steghide` (`commands`, `crypto`, `steg`, `deps`, `keys`),
  reading the public key out of an age key file (`keys`), what the answers
  typed at the menus select (`menu`), and the hiding, opening and key-making
  flows as state machines that decide which tool runs on which file and when
  (`workflow`). Packages are written as a stream (`cloud::PackageStream`), so
  a package that fails part way leaves what was written before the failure.
- `app/` is the program around it: the menus and prompts, running the tools,
  reading and writing files, and the temporary workspace (`tempfile`); it feeds
  each flow what happened and does what the flow says next.
- `tests/` runs the library on concrete values.
