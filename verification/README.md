# rkvm

Shares the keyboards and mice of one Linux machine with others. The server takes over the input
devices of its machine and relays their events to one output at a time: the machine itself, or one
of the clients. A key chord switches between them.

The rules are a Verus library. What it promises is stated in contracts and proved:

- `routing` decides where events go; `routing_laws` states what holds of the keys on all outputs.
- `server` keeps the tables of devices and clients and sends what the router decides; `server_laws`
  states that the keys that are down stay in step with the router, whatever becomes of a message.
- `interceptor`, `writer`, `event`, `key`, `rel` and `abs` read frames of a device and write them to
  the virtual device that stands in for it.
- `scan`, `claim`, `monitor`, `groups` and `inventory` find devices, take them over and give them
  back; `policy` says which.
- `session` and `message` are the connection to a client.
- `config` and `listing` are the configuration and the description of devices.
- `channel`, `slots`, `io_error`, `text`, `path` and the small collections are what the others are
  made of. `channel` and `slots` hold the queues of tokio and the tables of slab.

`app` is the program around the library: arguments, files, devices, sockets and tasks. It performs
the steps that the library asks for and hands back how they went. It needs libevdev.

`tests` runs the library on concrete values.
