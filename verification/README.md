# ScriptGo

A register-based virtual machine with its assembler, its SGB binary format,
the SGL script compiler (lexer, parser, IR, code generator, optimizer), the
host services that scripts call (a virtual file system, strings, mock HTTP
and sockets, a UI engine) and the `sgo` command line tool.

The library in `src/` is written in Verus: each public function states what
it does in its `requires` / `ensures`, and Verus proves the code meets it.

- `instruction`: the 32-bit instruction word and its fields.
- `vm`: the machine. A run stops with `VmResult::HostCall` when it needs its
  host (printing, system, hardware and UI calls, floating point, the
  fixed-point approximations, the zig-zag codec, the abort flag and the
  debug hook); the host answers with `complete_host_call` (or
  `answer_abort_check`) and resumes the run.
- `assembler`, `binary`: assembly text and SGB images.
- `compiler`: lexer, parser, AST, IR, code generator and optimizer.
- `host_handlers`, `io`, `net`: system and hardware calls over a
  `HostContext`.
- `ui_engine`: components, properties, events and the render stream.
- `cli`: the command line's parsing and program loading.
- `text`, `naming`: string helpers.

`tests/` exercises the library; `app/` is the `sgo` program: files, the
terminal, JSON traces, and the host side of a run (floating point and the
fixed-point math of `no_std_tool`).
