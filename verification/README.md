# dioxus_template

Templates for a virtual document: the static parts of a user interface are sent to the renderer
once, and only the dynamic parts are filled in for each instance. The library is verified with Verus.

- `src/location.rs`, `src/ids.rs`: what templates and nodes are identified by.
- `src/storage.rs`, `src/value.rs`, `src/node.rs`, `src/mapping.rs`, `src/template.rs`: the templates,
  made of `'static` references or of heap containers, with one mathematical view for both.
- `src/create.rs`, `src/finite.rs`: creating a template in the renderer, and finding out whether it is
  made of finite trees.
- `src/context.rs`, `src/hydrate.rs`, `src/template_ref.rs`: hydrating an instance of a template.
- `src/resolver.rs`: the renderer ids of templates, and which templates have to be created again.
- `src/mutations.rs`: the changes that are sent to the renderer.
- `src/arena.rs`: the bump arena.

Public proof functions whose names start with `law_` state what holds across several functions.

Numbers with a fraction are kept as their bit patterns, and values of types that only the document
knows as positions in a table that the document keeps. `app/` converts both, serializes templates for
hot reloading, and runs the library from the document.
