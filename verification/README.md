# ec_acpi

Client side of the ACPI methods of an embedded controller, verified with Verus.

- `src/value.rs`, `src/decode.rs`, `src/text.rs`: method arguments and results, and their wire form.
- `src/message.rs`: requests to evaluate a method and the replies to them.
- `src/evaluate.rs`: what is handed to the driver, and what comes of its status and reply.
- `src/source.rs`, `src/rtc.rs`, `src/guid.rs`: the controller's methods and variables.
- `src/laws.rs`: what holds of encoding and decoding together.
- `src/layout.rs`, `src/guid.rs` and `src/text.rs` hold the calls into `bytemuck`, `uuid` and the
  standard library whose contracts are taken on trust.
- `app/`: the call into the driver, units and error reports.

A header in a reply is read in place. A reply therefore has to start at a multiple of four bytes, and
each value in it at an even address; otherwise it is refused as an invalid format. A package takes up
all of the bytes behind its header.
