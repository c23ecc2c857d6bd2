# web-transport

WebTransport sessions over QUIC, with the logic verified by [Verus](https://github.com/verus-lang/verus).

The library in `src/` performs no I/O. Where a transport has to be asked something, a
function says what to ask and another is told what came back, so that everything it decides
is stated in contracts and proved.

- `ez`: QUIC connections and streams. The ranking of streams by send order, the sending half
  of a stream, the state that a connection shares with its driver, the driver's passes, how a
  client connects and what is asked of TLS.
- `session`: WebTransport on top of a connection. The headers of streams and datagrams,
  opening and accepting streams, and how a session ends.
- `browser`: WebTransport where the browser is the transport.
- `any`: a session over either of two transports.
- `traits`: what sessions and streams look like from outside.
- `waiters`: who waits for shared state, and how they are woken.
- `payload`, `proto`, `text`: what is relied on of other crates.

Properties that span several functions are proof functions whose names start with `law_`.

`app/` is the I/O around the library: connections over quiche, sessions over quinn, and
sessions in a browser.
