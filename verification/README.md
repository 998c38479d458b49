# ql-lab

The verified core of the QL lab tools, and the programs around it.

- `src/` is the library. What its functions do is stated in contracts that Verus proves, except
  in `external`, whose contracts say of calls into other crates what is taken to be true.
  - `protocol` and `transport`: frames, secure packets, the handshake, the routes that a
    connection proves, and both ends of a connection.
  - `router`, `table`: the router's limits, what it does with each packet, and how routes come
    and go.
  - `relay`, `page`, `pages`, `pairing`, `camera`, `theme`: the desktop relay, its pages and
    what it reads from the camera.
  - `server`: the Foundation server's sessions.
  - `benchmark`, `rpc`, `terminal`, `platform`: the generated downloads, the ping-pong calls and
    the terminal peer.
  - `external`: the calls into other crates.
- `tests/` runs the library.
- `app/` holds the programs: networking, Bluetooth, the camera, the screen.

The QL crates decode records and do the cryptography. They reach the library as closures, so
its contracts hold for any codec and any authentication code. So does the reader of QR codes,
which panics on some pictures: the programs contain that.
