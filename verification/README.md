# structs_new

Generates a constructor for a struct whose fields may carry default values:

```text
#[derive(Debug)]
struct A<T> where T: Copy {
    foo: u8,
    pub bar: T,
    abc: u8 = 255,
}
```

becomes the struct without the defaults and

```text
impl<T> A<T> where T: Copy {
    fn new(foo: u8, bar: T) -> Self { Self { foo: foo, bar: bar, abc: 255 } }
}
```

`new` takes the fields without a default, in order; the other fields get their
defaults. Attributes, visibilities, generic parameters and where clauses are kept.

The library is written in Verus and verified:

- `src/token.rs`: token trees, their values, and their source text.
- `src/syntax.rs`: the questions asked of `syn` (is this text a type, an
  expression, a visibility, ...) and the longest run of tokens it accepts. A run
  that may hold a C-string literal (`c"..."`), which syn 1 cannot read, is not
  accepted where syn would read literals; a group without visible delimiters is
  written in parentheses there, so that syn reads it as one unit.
- `src/structs.rs`: the syntax tree of a declaration, its grammar (as spec
  functions), the parser proved against it, and the expansion that names the
  struct's type with its generic arguments (`struct_new`).
- `src/structs2.rs`: the expansion with `Self` (`struct_new2`), and several
  declarations separated by `;` (`structs_new2`).
- `src/expand.rs`: the pieces both expansions share, among them the generic
  parameters as printed: lifetimes first, each parameter followed by its comma
  where the input has one.
- `src/laws.rs`: properties of the library as a whole: each parser keeps every
  token of its input (`parse_multi` with the `;` after each declaration), `new`
  takes exactly the fields without a default, fields keep their declarations,
  and, for generic parameters with the lifetimes first and no defaults, the two
  expansions generate the same struct, the same `impl<..>` and where clause, the
  same self type (up to a comma before `>`), and a `new` with the same
  visibility, parameters and struct literal (`f` against `f: f`).
- `app/lib.rs`: conversion between `proc_macro2` token streams and the
  library's token trees, for a procedural-macro crate to call.
