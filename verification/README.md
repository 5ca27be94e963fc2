# ganbare_backend

The content-management core of the ganbare language-learning back end, written
in Verus.

- `src/` is the verified library:
  - `models` – the records the database stores;
  - `manage` – the quiz, word and audio forms, the check a quiz form must pass,
    and the records built from the forms;
  - `text` – character-level string operations, among them `replace_all`, proved
    to do what `str::replace` does;
  - `cache` – the table of links already converted;
  - `images` – the extension, time-stamped random file name and local URL of a
    downloaded image;
  - `links` – the link sanitizer: finds quoted outbound links, says which to
    download, and rewrites the text; with the proofs that its steps compose and
    that sanitizing a text again with the table left by the first run downloads
    nothing and gives the same text.
- `app/` holds the input and output: the HTTP downloads and file writes of
  `sanitize_links`, and the database queries of content management.
- `tests/` runs the library on concrete values.
