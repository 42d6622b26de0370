# dragon_net

Verified pieces of a small kernel's networking and file-system layers,
written in Verus.

- `src/pvh_param.rs`: the PVH start-of-day structures (start info, module
  list entry, memory map entry) with their little-endian wire layout, and
  the E820 memory types.
- `src/inet.rs`, `src/errno.rs`: addresses, endpoints and error numbers.
- `src/smol.rs`: the calls into smoltcp's UDP socket, with the contracts
  that smoltcp's source shows for them.
- `src/udp_inner.rs`: an unbound and a bound UDP endpoint: binding,
  connecting, sending and receiving (with a connected socket's filtering
  of other sources).
- `src/udp.rs`: the UDP socket's states and calls (bind, implicit bind,
  connect, send, receive, close, poll events, options).
- `src/udp_laws.rs`: properties that span the socket's calls.
- `src/path.rs`: paths as components, with the text each leading part was
  written with: their order, prefixes, parents, text.
- `src/mount.rs`: the mount table, deepest mount point first.
- `src/dcache.rs`: the directory entry cache.

Services that the kernel provides (the port manager, the network
namespace's routing, wait queues, reference counts) reach the library as
closures or as values, and `app/` holds the glue that supplies them.
