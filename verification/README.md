# foxycompressor

A batch organiser for folders: images become WebP, videos become H.264 MP4
(through FFmpeg), and audio, documents and everything else go into 7z
archives, each in a folder or archive of its own, with the folder structure of
the input kept.

`src/` is the verified library (Verus). It holds the decisions of both
programs: how a file is classified, where its result goes, what FFmpeg is run
with and what is read back from its output, how the worker reports progress
and how the desktop front end understands those reports, how a byte stream is
cut into lines, and how the front end's state moves with each action.

`app/` is the ordinary Rust around it: the command-line worker (file system,
image decoding and WebP encoding, FFmpeg, the 7z writer) and, when the
executable is started as `foxycompressor-gui`, the desktop window.

`tests/` exercises the library on concrete values.
