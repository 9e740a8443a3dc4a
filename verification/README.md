# netsim

A network simulator for learning: PCs, hubs, switches, bridges and routers, their
interfaces and the cables between them, with an Ethernet / ARP / IPv4 / ICMP stack
and a console on each device. Every step of a ping (ARP lookup, request, reply,
forwarding, MAC learning) can be shown one at a time.

## Layout

- `src/` — the library, verified with Verus.
  - `net/` — wire formats: Ethernet (with its CRC-32 frame check sequence), ARP,
    IPv4 (header checksum) and ICMP; each with read/write laws.
  - `utils/` — MAC and IP addresses (text forms and their read-back laws), the
    interfaces of a device, the ARP, MAC and routing tables, text helpers and the
    clock.
  - `devices/` — what each kind of device does with a received frame and with a
    console command, stated as spec functions from state and input to new state and
    actions (frames to send, pause points to show).
  - `events.rs` — the events and tables shown to the user, and their text.
  - `simulation.rs` — the topology and its rules (names, interface limits, links,
    start and stop).
  - `commands.rs` — the values handed to the user interface.
- `tests/` — tests of the library, including whole topologies driven frame by frame.
- `app/` — the running part: channels between linked interfaces, one task per
  device, the event bus with its step-by-step mode, and the commands of the user
  interface. It performs the actions that the library decides.

## Why tables are vectors

The ARP and MAC tables, the interfaces of a device, the devices of the topology and
the packets waiting for ARP are held in vectors with a no-duplicates invariant, not
in hash maps:

- a hash map is walked in an order that its hasher, seeded anew in each process,
  decides; every listing (`arp`, `mac`, `ifconfig`, the tables shown at each step)
  could then only be stated as "some order". A vector in insertion order is one of
  those orders, and lets each listing be stated exactly;
- the devices are found by name, a `String` key, of which nothing is proved for a
  hash map here;
- the invariant (`wf`) states what the map gave: no key twice.

Table entries age by a monotonic clock, in nanoseconds, as `Instant` does.
