# asset_shelf

A library of media assets: pictures, videos and texts that are imported, found again and
pasted into other programs. What it decides and computes is written in Verus and proved
against its contracts.

- `src/` is the library. `src/lib.rs` says which module does what.
- `tests/` runs it, imports and pastes included, against files and windows held in memory.
- `app/` is the program around it: arguments, log files, tools, the disk and the windows.

What the proofs rest on besides Verus itself are the contracts of the functions of other
crates. They stand in `bitmap` (`roaring`), `recent` (`lru`), `digest` (`sha2`, `uuid`),
`media` (`encoding_rs`) and `phash` (`image`), and, for `std`, in `text`, `media` and `paths`.
Each says in its doc comment what it claims.

Floating point is left to `app/`: the cosine transform behind perceptual hashes hands the
library integers that are ordered as its coefficients are.
