# ups_manager

A UPS manager that turns MQTT requests into Modbus-RTU queries on a serial
port.

- `src/` is the verified library: request frames and their CRC-16/MODBUS
  checksum (`modbus::msg`), recognising replies, routing MQTT topics to
  request lists (`mqtt::msg`), and the shared-transmitter channel
  (`app::data_structures`).
- `app/` is the program around it: serial port and MQTT client setup, the
  reader, sender and timer threads, and printing.

## Request frames

A request frame keeps the low bytes of the address and the function code,
the offset and count registers, and the CRC of those six bytes. Two requests
give the same frame exactly when they agree on those fields
(`lemma_frames_equal_iff`). The test `check_reverse` takes the frames for
reading the current value (`[0x11, 0x03, 0x12, 0x01]`) and for the heartbeat
(`[0x01, 0x06, 0x50, 0x00]`), prints them, pins each one byte by byte, and
asserts that the two differ: their address bytes differ, so no frame builder
that keeps the address byte could make them equal.
