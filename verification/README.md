# kiview

A tree-style file explorer for Neovim. The editor sends command lines
(`go -path=/tmp`, `child -split=tab`, `rename -no-confirm -path=new`, ...)
and the explorer answers with actions for the editor to carry out, reading
and changing the file system in between.

The decision logic is a verified library (`src/`, checked with Verus):

- `text`, `option`, `name`: reading a command line into a command name and
  its switches, and offering completions.
- `command`: each command's answer, stated as a function of the buffer's
  state and of what the file system reported; the rendering of listings
  into buffer lines.
- `repository`: the text operations on paths, how a directory's entries
  become a listing (directories first, then by name), and the checks made
  before creating, moving or copying.
- `state`: the history each buffer keeps, and moving a buffer with `go`.

`app/` is the process around it: the connection to the editor, the file
system, and the wire format of actions.
