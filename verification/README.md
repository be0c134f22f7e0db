# mqtt-client

The cloud client of a 3D printer: it talks MQTT to a cloud, JSON-RPC to the printer's own server,
framed JSON to the user interface on the device, and BluFi to a phone that provisions Wi-Fi.

`src/` is the library, written in Verus. It holds what the client decides and computes; every
function there is verified against its contract.

- `mqtt/` – packets of MQTT 3.1.1 and 5: encoding, decoding, lengths, texts and properties.
- `runtime/` – modules, the topics they register, and the messages they queue.
- `modules`, `state`, `protocol` – the protocol with the cloud: login and binding, the queue of
  packets, status reports, downloads, firmware queries.
- `downlink`, `gcode_translator` – what the cloud and the user interface ask for: G-code, files,
  downloads.
- `moonraker/` – the connection to the printer's server, and the printer's state.
- `uds` – requests of the user interface.
- `blufi/` – provisioning: frames and fragments, provisioning data, the worker, Wi-Fi commands,
  names.
- `config`, `app_state`, `transport` – configuration, the printer's state, the stream to the broker.
- `text`, `json` – texts, and JSON documents by `serde_json`.

Proof functions named `law_…` state what holds of several functions together.

`app/` is the program: it opens connections, runs commands, reads and writes files, and hands the
library plain values. `tests/` runs the library.
