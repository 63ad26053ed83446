# ezrama

Keeps a TRYX Panorama SE cooler display showing its stored media on Windows
without the KANALI application running: one small process, and one keepalive
every 4.5 seconds.

The logic is a library whose behaviour is stated in contracts and proved with
Verus. The program around it makes the system's calls and hands the library
plain values.

## Layout

- `src/` is the library.
  - `pb`, `frame`, `wire`: the wire format, from bytes to messages.
  - `transport`, `session`, `hold`: one session with the display: its start,
    its queries, and the keepalive Pings that hold it.
  - `watch`, `supervisor`, `backend`: when a session is wanted, started, retried
    and released.
  - `overlapped`, `usbprint`, `devnotify`: transfers, discovery, and device
    notifications, each as steps between system calls.
  - `install`, `registry`, `shortcut`, `launcher`, `tray`, `icon`, `log`: the
    installation, other programs, the notification-area icon, and the log.
  - `cli`: the command line and what the commands say.
- `tests/` runs the library.
- `app/` is the program: the standard streams, files, and Windows.

Code that makes system calls is written as a step machine in the library: a
function from where it stands and what the last call gave to the next call to
make. The program runs the loop.
