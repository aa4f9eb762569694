# usb_uart_bridge

Firmware core for an RP2040 board that exposes three USB CDC serial ports,
each bridged to a PIO UART.

- `src/` is the verified library: packets, USB batching, UART burst
  assembly, baud-rate tracking, the WS2812 frame encoding and timing check,
  and pad-register arithmetic. Verus proves every executable function there
  against its contract; the few calls into embassy-sync's channels sit
  behind trusted wrappers whose behaviour depends on other tasks and is
  left unstated.
- `app/` is the firmware around it: peripheral set-up, async tasks, the
  bit-banging loop and register writes, and the floating-point parts
  (clock divider, LED breathing curve).
- `tests/` runs the library on the host.
