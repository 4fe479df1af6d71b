# sabios

The logic of a small x86_64 toy kernel as a library whose behaviour is stated
in contracts and proved with Verus: frame and heap block allocation, PCI
enumeration and MSI setup, FAT volume parsing, the task scheduler, the layer
compositor and windows, the text console and the terminal.

- `src/` is the verified library. Every public function carries a contract
  over mathematical models (`Seq`, `Map`, views of each type); properties that
  relate several calls stand as public proof functions named `law_*`.
- `tests/` runs the library on concrete values.
- `app/` is a host program around it: it draws the desktop and the console
  into an in-memory frame buffer, lists a FAT image given on the command line
  and runs the terminal on lines read from standard input.
