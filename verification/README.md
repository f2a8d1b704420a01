# offline_video

A library for videos that are kept on a device in encrypted form, downloaded from the web and
played through a server on the device itself. It is written in Verus: the functions state what
they do, and Verus proves it of them. Where chance or the clock decides, they state what holds
whatever comes of it, and where the random bytes and the time come from.

## The library (`src/`)

Encrypted files:

- `header`, `layout`: the file format. A header, and one record for each megabyte of the video.
- `cipher`, `keys`, `keychain`: authenticated encryption, and the keys. A device key, which the
  operating system keeps, wraps the key of each video.
- `writer`, `reader`: writing a video, and reading any range of it.
- `secret`, `random`, `error`: secrets in memory, random bytes, errors.

Playback:

- `routes`, `ranges`, `response`: addresses, range headers, responses.
- `sessions`, `playback`: who may play what, and the answer to each request.
- `cache`, `streaming`: decrypted chunks, and the parts of them that are sent.

Downloads and progress:

- `download`, `downloader`: the index of the downloads, and the stages of a download.
- `watch_progress`: how far each video was watched, and its synchronisation.

`logging`, `greeting`, `text`, `video_id`, `octets` and `little_endian` serve the others.

The public proof functions state what holds of the library as a whole. The central one is
`reader::written_video_reads_back`: what was written under a device key reads back, range by
range, under that key.

## What is trusted

Verus believes, without proof, the contracts of the calls into other crates: AES-GCM
(`cipher`), random bytes (`random`), zeroing of secrets (`secret`), the parsing of addresses
(`download`), the clock (`watch_progress`), and a few functions on strings (`text`). Each stands
in a function of its own, with a comment that says what it claims.

## The application (`app/`)

The files, the key store, the network and the user interface.
