# webrtc_server

A WebRTC data-channel server that streams a file to clients in blocks.

- `src/` is the verified library (Verus):
  - `frame.rs`: wire framing. A frame is a one-byte tag and a body. A service
    payload larger than `WEBRTC_MAX_LEN` goes out as a run of frames whose
    bodies concatenate to the payload; all but the last are tagged partial.
  - `blocks.rs`: the block protocol (block count, big-endian block numbers,
    the chunks a block is sent in, up to the file's end for the last block).
  - `connection.rs`: one client's connection: the str0m engine and the
    handshake state machine over its outputs and events; writes to the data channel.
  - `schedule.rs`: how long the driver waits before driving time forward.
- `app/` is the program around it: the HTTP signaling endpoint, the UDP
  driver loop, the transport channels and the block-serving task.
- `tests/` runs the library on concrete values.
