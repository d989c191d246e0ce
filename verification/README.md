# pinnacle_cypat

A verified library for hardening CyberPatriot competition images on Linux:
it reads the round's README, decides what each remediation task changes, and
says what a run did. The decisions are proved with Verus; running commands
and touching files is the program's.

- `src/` is the library. Every function in it is verified. The outside
  crates (`scraper`, `ego-tree`, `regex`) are called behind small trusted
  wrappers, each with a contract over a named result.
- `app/` is the program: the command line, the menu, running commands,
  reading and writing files, and printing.
- `tests/` runs the library on concrete inputs.

Some counts, for reference: Audit Policy writes 34 watch rules in 13 groups,
one per `-k` key, and is described as writing 13 rules because it counts the
groups. Security Hardening holds 37 settings. The scheduled-task scan reads seven
locations: `/etc/crontab`, the five directories under `/etc`, and the
per-user crontabs.
