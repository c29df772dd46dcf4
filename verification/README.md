# znaky

Turns a short description of a character into the character: `ux` and a
hexadecimal code point, `0x` and the hexadecimal bytes of its UTF-8 encoding,
`dx` and a decimal code point, or a name looked up in `;`-separated lists
(`mujslovnik.txt`, then `UnicodeData.txt`, in `~/.config/znaky/`). The
prefixes can be set in `~/.config/znaky/config.toml`.

- `src/` is the verified library:
  - `chybky.rs`: the error type and its messages;
  - `hexa.rs`: hexadecimal digits, character counting, decoding of
    hexadecimal UTF-8 (`u_literal`) and its round-trip law;
  - `text.rs`: character sequences, prefixes, substring search;
  - `mi.rs`: the `;`-separated line format and the search through a list;
  - `prefixy.rs`: the prefixes, number reading, and the decision what an
    argument asks for.
- `app/` is the command-line program: arguments, standard input, files and
  the TOML configuration.
- `tests/` runs the library on concrete values.
