# cd-da-reader

Reading audio CDs, verified with Verus.

- `src/` is the library. It performs no I/O: it builds the commands for a CD
  drive, decides which sectors to ask for and when to try again, makes sense of
  the replies on Linux, macOS and Windows, reads tables of contents, resolves
  tracks to sectors and wraps PCM into WAV files. Every function has a contract,
  and what holds of the library as a whole is proved in the functions named
  `law_...`.
- `app/` talks to the drives through the operating system.
- `tests/` runs the library on concrete values.

A source of sectors other than a drive, such as a disc image, implements
`AudioSectorReader`:

```rust
let pcm = read_track(&image, &toc, 1)?; // 2352 bytes per sector
let wav = create_wav(pcm);
```

## Reading a track

```rust
let reader = CdReader::open_default()?;
let toc = reader.read_toc()?;
let data = reader.read_track(&toc, 1)?;
std::fs::write("track01.wav", CdReader::create_wav(data))?;
```

A track reaches from its start to the start of the next one, or to the lead-out.
On CD-Extra discs, where only data tracks follow the last audio track, the 11,400
sectors of the session gap in front of the first data track are left out.

LBA counts sectors from the end of the two-second lead-in; MSF (minutes, seconds,
frames) counts from its start, so LBA + 150 is the number of frames.
