# unixsock_stream

Links over Unix domain sockets, for endpoints `unixsock-stream/<path>[?<metadata>][#<config>]`. A
path that starts with `@` names a socket in the abstract namespace, any other a file.

The library in `src/` decides; it does no I/O. Connecting a link (`connect`), opening a listener
(`listen`), serving it (`accept`) and taking it down (`release`) are state machines: each tells
what to do next, takes the outcome, and goes on. `address`, `endpoint`, `parameters`, `link`,
`error` and `identity` say what addresses, endpoints, their parameters, links, error texts and
names of unnamed sockets are, and `manager` keeps the listeners in service under their paths.
`lifecycle` holds the laws that join these: what is true of a listener from its opening to its end.
Contracts and laws are stated over the transition functions and views in the same modules.

`app/` performs the steps with Tokio.

The functions marked `external_body` rest on `uuid` (`Uuid::new_v4`) and the standard library
(`str::from_utf8`, `String::from_utf8_lossy`, the `Debug` of `str`). Their doc comments say what
is taken for granted of each.
