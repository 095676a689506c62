# arcademic-rust

A configuration-driven academic homepage built with Dioxus and rendered to a
static GitHub Pages site.

- `src/` is the verified library. Its contracts are checked by Verus:
  - `config`: the typed site configuration and every cross-field rule a
    configuration must satisfy (`SiteConfig::validate` succeeds exactly when
    the rule list finds no issue, and otherwise reports each issue in rule
    order), the footer text and the base-path joining.
  - `localization`: browser-language negotiation, the translation catalog and
    template filling with English fallbacks.
  - `components`: the decisions behind the page sections — responsive image
    sources, link classification, working hours, biography and news text
    segmentation, tag colours, heatmap cells and month labels, and the
    blinking-grid step.
  - `finalize`: the rewriting and checking of the generated `index.html`
    and of the 404 page made from it, and the page shell's style variables.
  - `text`: the character-sequence operations the contracts are stated with.
- `app/` holds the Dioxus components, the TOML and JSON loading, browser
  event handling, floating-point layout arithmetic and the file-system side
  of the Pages finalizer.
- `tests/` exercises the library on concrete values.
