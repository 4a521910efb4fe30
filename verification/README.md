# phantom

Makes hosted Bedrock servers show up as LAN servers. The library in `src/` holds what
the proxy and the relay decide, on packets and on failures, with contracts that Verus proves;
`app/` opens the sockets, runs the threads and tasks, hands the outcomes to the library and does
what it says is due.

| module         | what it holds                                                          |
|----------------|------------------------------------------------------------------------|
| `text`         | splitting, joining, searching, decimal numbers                         |
| `net`          | socket addresses as plain values                                       |
| `proto`        | the discovery packets and the advertisement in them                    |
| `client_map`   | one connection per client, dropped when idle                           |
| `nethernet`    | server data, discovery responses and polling                           |
| `proxy`        | the proxy's state: pongs rewritten, pings answered, packets passed on  |
| `raknet`       | RakNet packets by the `tokio-raknet` crate                             |
| `relay`        | relay addresses, frames, packets to and from a NetherNet server        |
| `relay_host`   | what a relay host does with each frame                                 |
| `relay_player` | what a relay player does with each packet                              |
| `cli`          | what the command line asks for                                         |

A law that spans several functions is a public proof function whose name starts with `law_`, at
the end of the module it belongs to.

The app talks NetherNet through the `tokio_nethernet` crate. The registry of crates does not carry
it, so `Cargo.toml` does not name it; building the app needs a copy beside the others.
