# fluent_web

A compiler for `.fluent` web components and the runtime pieces that the
generated components use, with the template logic verified by Verus.

A `.fluent` file has top level sections (`<data>`, `<props>`, `<define>`,
`<setup>`, `<events>`, `<generics>`, `<template>`, `<style>`). The compiler cuts
them out as text, parses the template into an HTML tree, runs passes over the
tree that turn template syntax into plain HTML plus the information needed to
generate Rust code, and writes the component module.

## Layout

- `src/` – the verified library.
  - `text` – finding top level sections and small text helpers.
  - `ids` – fresh ids for generated elements and functions.
  - `template` – splitting `{expr}` text into a format string and expressions.
  - `html` – a plain model of the HTML tree, attribute operations that behave as
    the parser's attribute map does, and the trusted bridge to the parser and
    serializer.
  - `markers` – the passes for prefixed attributes (`?cond`, `=attr`, `@prop`,
    `:event`, `;event`, `--var`), tagging elements by class or by `id`.
  - `reactive_text`, `ifs`, `subcomponent`, `element_ids` – the other passes.
  - `sections` – parsing the Rust sections (`<generics>`, `<props>`, `<data>`,
    `<define>`, `<setup>`) with `syn`, and the template's body.
  - `component`, `id_component` – all passes of a component in running order,
    for scoped components and for components that find elements by `id`.
  - `selector_scope` – scoping a CSS selector to the component.
  - `css` – the component's scoped `<style>` block.
  - `events` – element and event types for listeners.
  - `runtime` – selectors, the `if` block state machine and traits used at run
    time; `change` – change detection for component data.
- `app/` – the program: reading and writing files, code generation with `quote`,
  the CSS selector visitor, and the browser side that talks to the DOM.
- `tests/` – tests of the library on concrete values.
