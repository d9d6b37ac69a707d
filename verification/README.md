# rp-picow-examples

Examples for the Raspberry Pi Pico W: USB serial logging with a handler that
restarts the board into its bootloader on request, a blinking LED, a button
that drives the LED, and one that sends UDP messages.

- `src/` is the verified library (Verus): what the serial handler does with
  received bytes (UTF-8 decoding, trimming by the Unicode `White_Space`
  property, boot requests), the network configuration and the bring-up of
  the wifi connection, and the button's state machine.
- `tests/` runs the library on concrete values.
- `app/` is the board side: embassy tasks, the wifi chip, the network stack
  and the example programs, which act on the library's decisions.
