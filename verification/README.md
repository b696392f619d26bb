# remote_shell

A small remote shell: a TCP server that runs file commands (`mkdir`, `rm`,
`rmdir`, `ls`, `cp`, `mv`, `touch`, `cd`, `pwd`, `pushd`, `popd`) in a
per-connection session, and a line-based client.

- `src/` is the verified library: reading command lines (`commands`), the
  session state and the file-system operation each command asks for (`io`),
  message framing and reply text (`session`), and the character-level string
  helpers they rest on (`text`).
- `app/` holds the two programs around it: the server (sockets, the file
  system, clock formatting) and the client (standard input and a socket).
- `tests/` exercises the library on concrete inputs.
