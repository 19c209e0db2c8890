# freemdu_gateway

The decisions of an appliance gateway, verified with Verus. The gateway reads a
household appliance through its optical diagnostic port and shows it in Home
Assistant over MQTT. It can also bridge the port to USB, and dump the memory of
the appliance.

- `src/` is the library. `messages` decides what happens on each message and
  tick, `publish` runs the publication of an appliance step by step,
  `invocation` finds the action to trigger, `discovery` writes entities and
  values, `network` and `wifi` set up the network, `bridge` passes bytes on and
  `dump` plans a memory dump.
- `tests/` runs the library on concrete values.
- `app/` is what talks to the hardware and to the network.
