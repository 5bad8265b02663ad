# cpp_class

Declares C++-compatible classes in Rust. A declaration such as

```text
pub List<T>: pub virtual Length, pub virtual Index<T> {
    pub virtual fn get(index: usize) -> *const T;
    pub len: usize;
}
```

becomes `#[repr(C)]` structs laid out as a C++ compiler lays out the class:
a plain class is one struct whose first fields hold the classes it inherits;
a class with virtual functions is a struct of a vtable pointer and a data
struct whose first field holds the first inherited class, with a vtable
struct whose first entry is the virtual base's table.

## Layout

- `src/` is the verified library (Verus).
  - `tokens`, `scan`, `emit`: a flat model of a token stream, finding where a
    piece of syntax ends, and appending tokens.
  - `syntax`: the pieces of Rust syntax (types, paths, patterns, ...) that
    the grammar delimits and `syn` checks.
  - `parse`, `items`: the grammar of a class declaration; each parser equals
    a spec function of the same name. `items::reread` shows that the
    scanners and parsers agree on tokens that agree, which the law that a
    printed virtual function reads back rests on.
  - `naming`: the name of the field that holds an inherited class.
  - `expand`: the expansion of a parsed class, stated token by token.
  - `laws`: what holds of every expansion and parse: the layout that the
    `Virtual` trait requires, the order of inherited fields, which classes
    are refused, that fields and parameters print back as read, and that a
    printed virtual function reads back as the same function.
  - `inheritance`, `non_virt`, `virt`, `usage`: the traits and marker type
    that generated code names.
- `app/` is the runtime: the `unsafe` marker traits that generated code
  implements, what needs raw pointers (`VTablePtr`, `vtable_of`), the helper
  macros of generated code, and `class_impl`, which converts a `proc_macro2`
  token stream for the library and back. A proc-macro crate would expose
  `class_impl` as a macro for `class!` to forward to.
- `tests/` runs the library on declarations lexed by `proc_macro2`.
