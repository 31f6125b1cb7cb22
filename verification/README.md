# rog_core

The control logic of a daemon for ASUS ROG laptops, written in Verus: fan
levels and the processor limits that go with them, the packets for the keyboard
LEDs, key reports, and the choice of the USB device and interface.

- `src/` decides. It has no I/O; its functions say which actions to perform, in
  which order, and go on from what came back.
- `app/` acts: USB transfers, kernel files, programs of the system. The types of
  the aura protocol come from the `rog_aura` crate; the settings file and the
  virtual keyboard are handed in by the daemon.
- `tests/` runs the library on concrete values.

| module     | what it decides |
|------------|-----------------|
| `usb`      | which device is opened and which interface is claimed |
| `fan`      | what a change of the fan mode and a reload do |
| `rfkill`   | which programs suspend the PC and switch the wireless devices |
| `keyboard` | which reports are key events |
| `led`      | which packets a command for the LEDs writes, and which it saves |
| `plan`     | how a run through a list of actions goes on after each of them |
| `session`  | what holds over whole commands for the LEDs and sequences of them |
| `text`     | numbers and texts that are read and written |
| `config`   | the settings that the decisions look at |
