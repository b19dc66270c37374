# export_findmy

Exports the keys of the Find My accessories of an account as property list files, one for each
accessory. The files contain private key material.

- `src/` is the verified library: the command line, the device that the program presents itself
  as, the account, the choice of an escrow bottle, the property list and the file name of an
  accessory, and the session that decides, after each piece of outside work, what is printed and
  what is done next.
- `app/` does that work: it talks to the terminal, the services and the file system, and hands
  what it came to back to the session.
- `tests/` runs the library.
