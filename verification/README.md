# NearWeave

NearWeave moves files, shared directories and clipboard text between nearby devices. Two devices
are connected over Bluetooth (RFCOMM) or over the local network (Noise), and a Bluetooth connection
is sped up by an encrypted TCP link beside it where both devices are in the same network.

The rules of the application are a library that is verified with [Verus](https://github.com/verus-lang/verus):
each function states what it returns and what it changes, and the statement is proved.

- `src/` is the verified library. It does no input or output. A function that needs some says what
  is to be done, and another one takes the outcome.
- `app/` is the program around it: sockets, files, the clipboard, the window, and the notation of
  messages in JSON.
- `tests/` runs the library.

What is not proved is what the library takes from other crates: SHA-256 (`sha2`), ChaCha20-Poly1305
(`chacha20poly1305`), the Noise handshake (`snow`) and identifiers (`uuid`), and a few functions of
the standard library. Each of them stands behind a function marked `external_body` or an
`assume_specification`, whose comment says what is claimed of it.

Public proof functions whose names begin with `law_` state what holds across functions: that a frame
is read as it was written, that both devices come to the same pairing code, that a control message
never waits for data, that a file that is replaced is not lost, and so on.
