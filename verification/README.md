# basicnext

The verified core of the Basic Next toolchain, written in Verus.

- `model`, `types`, `source`: the BN IR data model and its mathematical views.
- `names`: the function-name protocol (which names are entries, methods,
  synthesised members or intrinsics).
- `validate` with `cfg`, `instructions`, `typing`, `checks`, `fields`,
  `hierarchy`: the IR validator. `validate` succeeds exactly on the modules
  that satisfy `module_valid`, and when it fails its diagnostic is the one
  `module_error` gives: the first rule broken, in the order the validator
  checks them. `ValidatedModule` can only hold a valid module.
- `crypto`, `json`, `value`: argument handling and result shaping of the
  `BNCrypto` and `BNJson` library providers. The cryptographic primitives and
  the JSON document store are run by the host; the library says exactly which
  request it makes and what each answer comes to.
- `llvm`, `layout`, `symbols`: the LLVM backend's type mapping, the
  per-operation support predicates (binary, unary and cast operators,
  printable types), the target checks on the entry function (chosen by its
  kind), object layout and symbol names. The analysis of whole functions is
  not here: `validate_for` takes its outcome as an argument.
- `emission`, `casts`, `codegen`, `print`, `dataframe`: LLVM text emitters,
  each with the exact text it appends as its contract. Deferred Phi nodes are
  placed at UTF-8 byte offsets of the emitted text.

`app/` holds the host-side glue that needs `serde_json` values or floating
point. `tests/` exercises the library on concrete values.
