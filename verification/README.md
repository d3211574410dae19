# hgclient_conf

Configuration types for Mercurial client hotfixes (`TimeShard`, `Condition`,
`Hotfix`, `ClientConfig`) and their Thrift wire form, verified with Verus.

A value is written as a stream of Thrift protocol events (`token::Token`) and
read back from such a stream the way a Thrift protocol reader hands them out:
known fields by type tag and id, unknown fields skipped, absent fields at their
defaults, and at most one alternative of the `Condition` union.

- `src/types.rs`: the types, their mathematical views and defaults.
- `src/write.rs`: the token streams the writers emit, and the writers.
- `src/read.rs`: what reading a stream gives, and the readers.
- `src/laws.rs`, `src/locality.rs`: reading what was written gives it back,
  also from a stream without names; unknown fields are skipped; a union
  refuses a second field; reading looks only forward and not at names.
- `src/union.rs`: the union rule of `Condition` over any list of fields, the
  one field that each alternative writes, and how many field headers reading
  takes at each level.
- `src/failures.rs`: how reading fails: every reader error is the result,
  one bad hotfix fails the whole configuration, and a time shard cut short
  reads as the end of the input.
- `src/schema.rs`: the field table of each struct (name, type tag, id), for
  protocols that find fields by name.
- `src/revision.rs`, `src/lfs.rs`: request helpers of the API server (revision
  decoding, base URL of large-file requests from the `Host` header's bytes).
- `app/`: serde copies of the types and their `fbthrift` serialization, which
  replays token streams on a protocol writer and gathers them from a reader;
  the `http::Uri` built from the library's `LfsUrl`.
