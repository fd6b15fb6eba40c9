# BACnet Republisher

Discovers BACnet/IP devices, polls their points, and republishes the values to an MQTT topic tree.
The decisions are a library whose behaviour is stated in contracts and proved by Verus; the sockets,
files, threads and windows around it are ordinary Rust.

## Layout

- `src/` is the verified library.
  - `text`, `numerals`, `address`, `order`, `clock`, `log`: texts, numbers, addresses, sets of
    numbers, timestamps and the log.
  - `model`, `config`, `statuses`, `settings`, `seed`, `import`: points and their statuses, the
    configuration and how it is edited, the points of a simulated plant, and the import of points.
  - `value`, `topic`, `network`, `mqtt`: application-tagged values, MQTT topics, network interfaces,
    and publishing.
  - `bacnet`: discovery, object scans, refreshes of the device table and polls. Each is a state
    machine: it says what to send next, and is told what came back.
  - `worker`: what is reported of an operation, single polls and scans, the continuous republisher,
    the pauses of failing devices, and the scan of all devices.
  - `app`, `pages`: the state of the user interface, and what its pages show.
- `tests/` runs the library.
- `app/` is the desktop application.

Numbers of devices are kept as the bits that were received. Floating point is used only where they
are shown or published, in `app/numbers.rs`.

## What is published

Each value goes to a topic of its own below the topic prefix, `Netix/Site` by default:

```text
<topic_prefix>/<device_label>/<object_type>/<object_instance>/<property>
```

A point with a tag path goes to that path instead. Numbers are published as JSON numbers, everything
else as JSON strings. A health report goes to `Netix/Site/_health/bacnet-republisher` by default.
