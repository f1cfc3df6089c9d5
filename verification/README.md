# fedora_aspace

Links newly created Fedora/Hyrax resources to their ArchivesSpace records.

- `src/` is the verified library (Verus):
  - `fedora_queue`: which JMS events announce a created resource, and the
    collection of their URIs while the queue is read;
  - `fedora_auth`, `fedora_api`: repository URLs, and recognising an archival
    document with an ArchivesSpace reference in its Turtle description;
  - `json`: JSON values and member lookup and update;
  - `aspace_objects`: ArchivesSpace record addresses, login, decoding of
    archival and digital objects, and the file version written back;
  - `aspace_api`: the update pipeline as a state machine;
  - `urls`: URL parsing and resolution by the `url` crate.
- `app/` holds the network side: the STOMP connection, the HTTP clients, and
  conversion between `serde_json` values and the library's JSON values.
- `tests/` runs the library on concrete values.
