# ui5_dts

Generates TypeScript declaration files (`.d.ts`) for the classes described in
UI5 `api.json` documents.

- `src/` is the verified library:
  - `text.rs`: trimming, prefix and substring tests, splitting and joining,
    defined over `Seq<char>` and implemented on `&str`;
  - `model.rs`: the symbols of an `api.json` document as plain data;
  - `typescript.rs`: translation of UI5 type expressions, parameters, method
    signatures and class declaration files, the `Promise.` types that the
    translation echoes, and the checks for the one input on which the
    translation panics;
  - `driver.rs`: endpoint addresses and which symbols are echoed;
  - `laws.rs`: properties that span several functions.
- `app/` is the command-line program: argument parsing, HTTP fetching,
  JSON (de)serialisation and file output.
- `tests/` exercises the library on concrete values.
