# vrg9080-protocol

Unofficial access to the IMU and proximity values of a VRG9080 (USB VID `0x2C30`, PID
`0x1050`) on Linux, with its protocol logic verified in Verus.

- `src/` is the verified library. It decodes 64-byte reports (`codec`), holds the fixed
  messages that may be sent (`protocol`), decides which node is the device (`identity`,
  `node`, `discovery`, `open`), how it is started (`startup`), what is buffered and
  counted (`session`, `device_session`), when a nonblocking call is repeated (`hidraw`),
  and what an error says (`error`, `message`). The `*_laws` modules state what holds of
  these as a whole.
- `app/` performs the I/O: sysfs, the hidraw node, the clock. It carries out one action
  at a time and tells the library what came of it.
- `tests/` runs the library on concrete reports, listings and scripted devices.

Floating-point values are held as their bit patterns in the library. What it takes on
trust are four constants of `libc` and the lossy UTF-8 decoding of the standard library.
