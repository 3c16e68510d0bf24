# wasm_codegen

Generates the Rust glue between a WebAssembly host (wasmtime) and its guest
from small interface files such as

```text
imports {
    log(msg: &String)
    multi_test[
        a(a: i32)
        b(b: bool)
    ]
}

exports {
    give_custom_to_guest(custom: shared::Custom)
    return_string_to_host() -> String
}
```

`src/` is the verified library:

- `parser`: the interface-file parser, with its refusals and the
  well-formedness of every function it returns;
- `value_type`: declarations of value types (`type: &String de: String kind:
  String repr: FatPtr can_be_param: true`) and the pool that holds them;
- `plan`: names of generated items, big-call argument slots, and how each
  value is encoded and decoded on each side of the boundary;
- `binding`: what each function becomes on each side (wrapper and trait
  signatures, per-argument conversion and big-call slot, link names, the
  dispatch index of a multi-function member), with the proof that the
  guest and the host agree on every argument and result (a multi-function
  member's result widened to `u64` by the host and narrowed back by the guest);
- `fat_ptr`, `num_bytes`: fat pointers and the 8-byte argument slots;
- `case`: ASCII identifier case conversion;
- `memory_buffer`, `timers`: the host's buffer ids, the guest's buffer
  handle, and the guest executor's timers.

`app/` reads interface files, renders the bindings that `binding` plans with `quote`, writes them
with `prettyplease`, and holds the runtime glue (bincode, the futures
executor, clocks).
