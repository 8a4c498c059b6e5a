# logs_analyzer

Reads log files, recognises several formats (Symfony/app lines, custom SSH
lines, syslog lines, HTTP request traces), filters entries on a field and
colours lines for the terminal.

- `src/` is the verified library (Verus):
  - `text.rs`: trimming, character and substring search, first-occurrence
    replacement, each proved against a specification over `Seq<char>`;
  - `entry.rs`: `LogEntry`, its accessors, the case-insensitive field filter
    and its laws;
  - `parser.rs`: the Symfony, SSH/syslog and fallback parsers and their laws;
  - `colorize.rs`: which parts of a line are coloured, in which colour, and
    how the coloured parts replace the plain ones;
  - `shown.rs`: the proof that colouring a line keeps what it shows once
    its escape sequences are removed;
  - `outside.rs`: the trusted calls into `regex`, `chrono`, `colored` and std.
- `parser::LogPatterns` compiles the patterns once; the `*_with` parsers and
  `colorize_line_with` use them, so that a large file is read without
  compiling a pattern per line.
- `app/` is the command-line program: argument handling, file reading and
  printing.
- `tests/` runs the library on concrete lines.
