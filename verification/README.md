# nhentai_archivist (verified core)

The gallery metadata logic of the archivist, written in Verus:

- `src/text.rs`: characters of a string, the lowercase/trim normalisation of
  names, reading unsigned decimal numbers, and the refusal message.
- `src/image_type.rs`: `ImageType`, reading it from a name or a path's
  extension, its one-letter and long forms, and the law that both forms read
  back as the same type.
- `src/api_response.rs`: the API response types, the numeric media id, the
  page type summary, and the rows that a gallery writes to the database.
- `src/error.rs`: the directory removal error.

`app/` holds what Verus does not see: the serde forms of the response types,
`Display`/`Debug`/serde for `ImageType`, the conversion of upload dates into
chrono dates, the SQLite write itself, and the error types with their
messages.
