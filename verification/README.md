# Lenny

A phone's camera as a webcam: the phone streams H.264 over TCP, the desktop decodes it and feeds a virtual camera.

The library in `src/` holds the logic, each function with a contract that Verus proves:

- `wire`: the message framing, the tag-length-value payloads and every message, with the law that each reads back.
- `session`: handshake, pairing and approval, negotiation, keepalive, congestion control and reconnecting, as a state
  machine whose steps return what the program around it has to do.
- `timing`, `pairing`: the clock estimate from pings, and single-use pairing tokens.
- `framebuf`: the ring of frames that two programs share, and the lock that keeps readers from torn frames.
- `receiver`: pairing links, discovery, known phones, the decoder's guard, and the desktop's own state.
- `ui`: the decisions behind the window: which modes are offered, what a click sends, the QR code.
- `vcam`: composing pictures for the virtual camera, the page with a few words that stands in for them, the camera that
  stands in for a missing device, the state machines of the DirectShow filter and the Media Foundation source, and what
  their DLL registers.
- `fake_phone`: a phone without a phone, for trying things out.
- `c_api`, `abi`: the values of the C interface and what its calls decide.

`app/` is the program around it: sockets, threads, the clock, the window, files and the C interface's pointers. It is
not verified.

What is believed without proof is marked `#[verifier::external_body]`, `external_type_specification` or
`assume_specification`, and says in its doc comment which outside function it stands for: OpenH264's decoder and
encoder, `qrcode`, `png`, and two string functions of the standard library.
