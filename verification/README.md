# active_call

The core of a SIP back-to-back user agent, verified with Verus. `src/` holds what a
call decides: how an INVITE is routed, where a user is registered, which codecs two
parties share, how a frame is forwarded between them, when a leg is rung, answered,
refreshed or hung up, and what is reported at the end. Every function has a contract
that Verus proves.

## Layout

| Where | What |
|---|---|
| `src/text.rs`, `src/host.rs`, `src/sip.rs`, `src/model.rs` | text, addresses, SIP values, the plan of a call |
| `src/state.rs` | the phases of a call and what its observers see |
| `src/negotiate.rs`, `src/caller_negotiation.rs`, `src/media_endpoint.rs`, `src/sdp_direction.rs` | media descriptions and the choice of codecs |
| `src/media_bridge.rs`, `src/bridge_runtime.rs`, `src/dtmf_listener.rs`, `src/recording_runtime.rs`, `src/media_peer.rs` | forwarding of frames, DTMF, recording |
| `src/locator.rs`, `src/matcher.rs`, `src/call.rs`, `src/server.rs`, `src/proxy_call.rs` | registrations, routing, the plan of a call, the server |
| `src/session_timer.rs`, `src/sip_leg.rs`, `src/leg_event.rs`, `src/leg_command.rs`, `src/call_leg.rs` | the legs of a call |
| `src/session.rs` and the `*_runtime.rs` modules, `src/queue_flow.rs` | the session: dialing, answering, renegotiation, teardown |
| `app/` | sockets, channels, clocks and the media engine around the library |
| `tests/` | tests of the library from outside |

The library does no I/O. What takes time or comes from outside enters as an event or
an argument: moments are milliseconds, replies that are still owed are numbers, and
the library answers with the next step. `app/` carries the steps out.

Items marked `external_body` call another crate; each says in its comment what is
taken from it without proof.
