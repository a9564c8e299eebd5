# smart_garden

The logic of a home garden watering controller (an Orange Pi Zero with a
relay, an OLED display and an MQTT broker), verified with Verus.

- `src/` is the verified library: the MQTT topic routing and its replies
  (`router`, `mqtt_listener`), decimal replies (`decimal`), the records
  (`models`), the QR code of the controller's address fitted to the display
  (`qr_fit`, `ip_poller`, `display`, `test_display`) and the display set-up
  decisions (`init`). The QR encoder (qrcode) and the image resize (image)
  are called through trusted wrappers whose contracts are in `ip_poller.rs`
  and `qr_fit.rs`.
- `app/` is the service around it: SQLite, GPIO, I2C display, MQTT client,
  JSON, threads and timers.
- `tests/` runs the library with the real qrcode and image crates.
