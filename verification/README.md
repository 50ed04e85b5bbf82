# SentryUSB device logic

The parts of SentryUSB that decide what the device does, written in Verus: each
function states in its contract what it returns, and Verus proves it.

- `src/` is the library. It touches no file, socket or process. Where the device
  has to be acted on, a function takes what the caller found out and returns the
  steps to carry out, or one decision of a longer exchange.
- `tests/` runs it on concrete values.
- `app/` is the code around it: sysfs and configfs, processes, the database and
  the HTTP endpoints.

| module | subject |
| --- | --- |
| `text`, `order` | text primitives and the order of names |
| `board` | which board this is, and the USB knobs of each |
| `serial` | the gadget's serial number and bus power |
| `gadget` | bringing the USB gadget up, taking it down, binding it |
| `early_bind` | the initramfs scripts and their gate |
| `flags` | the experimental opt-in |
| `setup` | checks before the device is set up |
| `adapter`, `radio` | the Bluetooth controllers and who owns the radio |
| `row`, `store_codec` | rows of the route table and the export of drives |
| `command`, `overview` | the command surface and the page-load aggregate |

Outside functions that the library calls stand behind small wrappers. What a
wrapper's contract claims is believed, not proved; its doc comment says what
that is.
