# bacnet-rs

Building blocks for BACnet devices and clients, verified with Verus.

- `encoding`: tags and primitive values as octets, streams, buffers, a cache and
  statistics.
- `property`: property values, constructed values, dates, and their octets.
- `object`: the objects of a device, command priorities, intrinsic reporting, and the
  database that hosts them, or any type that is `Hostable`.
- `event`: when alarm conditions become transitions, and who is told.
- `cov`: subscriptions to changes of value, and what they report.
- `schedule`: what schedules command, and what they write to their targets.
- `client`: how requests are split and answers joined, and what a client endpoint does
  about each command, packet and deadline.
- `number`: single and double precision numbers by their bit patterns.
- `text`, `octets`, `ranking`, `table`, `address`: what the others build on.

Every function states in its contract what it returns or changes. What holds across
functions is stated in proof functions named `law_...`, next to what they speak of.

`app` holds what needs sockets, files, a clock or floating point: the asynchronous
client, the address cache on disk, a database shared between threads, averages, and
records that can be serialised. It is generic over a `Wire`, which turns messages into
octets.
